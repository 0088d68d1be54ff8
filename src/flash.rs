//! The read and write capability that the image and boot logic use on every
//! flash device, whatever its kind.

use crate::error::Error;
use crate::mcu_flash::{erase_end, erase_start, lemma_read_after_program, padded_len, programmed, FlashController, McuFlash};
use crate::micron;
use crate::sector_map::{self, FLASH_START};
use vstd::prelude::*;

verus! {

/// An address of one flash device.
pub trait FlashAddress: Copy {
    spec fn value(&self) -> int;

    fn raw(&self) -> (r: u32)
        ensures
            r == self.value(),
    ;

    fn from_raw(raw: u32) -> (a: Self)
        ensures
            a.value() == raw,
    ;
}

impl FlashAddress for sector_map::Address {
    open spec fn value(&self) -> int {
        self.0 as int
    }

    fn raw(&self) -> (r: u32) {
        self.0
    }

    fn from_raw(raw: u32) -> (a: Self) {
        sector_map::Address(raw)
    }
}

impl FlashAddress for micron::Address {
    open spec fn value(&self) -> int {
        self.0 as int
    }

    fn raw(&self) -> (r: u32) {
        self.0
    }

    fn from_raw(raw: u32) -> (a: Self) {
        micron::Address(raw)
    }
}

/// `len` bytes from address `a` lie in storage that starts at address
/// `origin` and holds `size` bytes.
pub open spec fn in_storage(origin: int, size: int, a: int, len: int) -> bool {
    origin <= a && a - origin + len <= size
}

/// A flash device seen as a sequence of bytes: the byte at address `a` is
/// `contents()[a - origin()]`.
pub trait ReadWrite {
    type Address: FlashAddress;

    spec fn contents(&self) -> Seq<u8>;

    spec fn origin(&self) -> int;

    spec fn ready(&self) -> bool;

    /// Address `a` may change when `len` bytes are written from `address`.
    spec fn write_reach(address: int, len: int, a: int) -> bool;

    fn read(&mut self, address: Self::Address, bytes: &mut [u8]) -> (r: Result<(), Error>)
        requires
            old(self).ready(),
        ensures
            final(self).ready(),
            final(self).contents() == old(self).contents(),
            final(self).origin() == old(self).origin(),
            final(bytes)@.len() == old(bytes)@.len(),
            r is Ok <==> in_storage(
                old(self).origin(),
                old(self).contents().len() as int,
                address.value(),
                old(bytes)@.len() as int,
            ),
            r is Ok ==> final(bytes)@ == old(self).contents().subrange(
                address.value() - old(self).origin(),
                address.value() - old(self).origin() + old(bytes)@.len(),
            ),
    ;

    /// Writes `bytes` from `address`; what else in the device changes is up
    /// to the device (a flash may erase whole sectors first).
    fn write(&mut self, address: Self::Address, bytes: &[u8]) -> (r: Result<(), Error>)
        requires
            old(self).ready(),
        ensures
            final(self).ready(),
            final(self).origin() == old(self).origin(),
            final(self).contents().len() == old(self).contents().len(),
            r is Err ==> final(self).contents() == old(self).contents(),
            forall|k: int|
                0 <= k < old(self).contents().len() && !Self::write_reach(
                    address.value(),
                    bytes@.len() as int,
                    old(self).origin() + k,
                ) ==> #[trigger] final(self).contents()[k] == old(self).contents()[k],
            r is Ok && bytes@.len() > 0 ==> in_storage(
                old(self).origin(),
                old(self).contents().len() as int,
                address.value(),
                bytes@.len() as int,
            ) && final(self).contents().subrange(
                address.value() - old(self).origin(),
                address.value() - old(self).origin() + bytes@.len(),
            ) == bytes@,
    ;
}

impl<R: FlashController> ReadWrite for McuFlash<R> {
    type Address = sector_map::Address;

    open spec fn contents(&self) -> Seq<u8> {
        self.memory()
    }

    open spec fn origin(&self) -> int {
        FLASH_START as int
    }

    open spec fn ready(&self) -> bool {
        self.well_formed()
    }

    /// The bytes written and their word padding, and every sector that the
    /// range touches, which is erased first.
    open spec fn write_reach(address: int, len: int, a: int) -> bool {
        ||| address <= a < address + padded_len(len)
        ||| len > 0 && erase_start(address) <= a < erase_end(address, len)
    }

    fn read(&mut self, address: sector_map::Address, bytes: &mut [u8]) -> (r: Result<(), Error>) {
        match McuFlash::<R>::read(self, address, bytes) {
            Ok(()) => Ok(()),
            Err(e) => Err(Error::from(e)),
        }
    }

    fn write(&mut self, address: sector_map::Address, bytes: &[u8]) -> (r: Result<(), Error>) {
        let ghost m = self.memory();
        match self.write_blocking(address, bytes) {
            Ok(()) => {
                proof {
                    lemma_read_after_program(m, address.0 as int, bytes@);
                    assert(self.memory() == programmed(m, address.0 as int, bytes@));
                }
                Ok(())
            },
            Err(e) => Err(Error::from(e)),
        }
    }
}

} // verus!
