//! Internal flash engine of the STM32F4 family: erase and program through the
//! flash controller, checked against the memory map.

use crate::sector_map::{
    is_ordered, is_sound_map, lemma_main_sector_bounds, lemma_memory_map_sound, lemma_unique_sector,
    memory_map, range_writable, sector_index_of, spec_memory_map, writable_address, Address, Range,
    Sector, FLASH_END, FLASH_START, SECTOR_NUMBER,
};
use vstd::bytes::{lemma_auto_spec_u32_to_from_le_bytes, spec_u32_to_le_bytes, u32_from_le_bytes};
use vstd::prelude::*;

verus! {

/// Size in bytes of the internal flash main memory area.
pub const MEMORY_SIZE: usize = 0x0010_0000;

/// First key of the unlock sequence of the flash control register.
pub const UNLOCK_KEY_FIRST: u32 = 0x4567_0123;

/// Second key of the unlock sequence of the flash control register.
pub const UNLOCK_KEY_SECOND: u32 = 0xCDEF_89AB;

#[derive(Copy, Clone, Debug, PartialEq, Eq, Structural)]
pub enum Error {
    MemoryNotReachable,
    MisalignedAccess,
    MemoryNotWritable,
}

/// `m` with the bytes at indices `[lo, hi)` erased.
pub open spec fn erase_span(m: Seq<u8>, lo: int, hi: int) -> Seq<u8> {
    Seq::new(m.len(), |k: int| if lo <= k < hi { 0xFFu8 } else { m[k] })
}

/// `m` after programming `word` at index `k0`: programming only clears bits.
pub open spec fn program_effect(m: Seq<u8>, k0: int, word: u32) -> Seq<u8> {
    Seq::new(
        m.len(),
        |k: int|
            if k0 <= k < k0 + 4 {
                m[k] & spec_u32_to_le_bytes(word)[k - k0]
            } else {
                m[k]
            },
    )
}

/// A write to a control register of the internal flash controller.
#[derive(Copy, Clone, Debug, PartialEq, Eq, Structural)]
pub enum ControlWrite {
    /// A key written to the key register.
    Key(u32),
    /// Program size set to words (32 bits).
    WordParallelism,
    /// The control register locked.
    Lock,
    /// Erase of a main area sector started.
    SectorErase(u8),
    /// Programming enabled.
    EnableProgramming,
    /// A word programmed at an address.
    Program(u32, u32),
}

/// Register level access to the internal flash controller. The main memory
/// area is seen as `memory()`, whose byte `k` sits at address
/// `FLASH_START + k`. The busy flag clears after finitely many polls.
pub trait FlashController {
    spec fn memory(&self) -> Seq<u8>;

    /// Polls of the busy flag left before it reads clear.
    spec fn busy_polls(&self) -> nat;

    /// The control register writes made so far, in order.
    spec fn control_writes(&self) -> Seq<ControlWrite>;

    fn is_busy(&mut self) -> (r: bool)
        ensures
            final(self).memory() == old(self).memory(),
            r == (old(self).busy_polls() > 0),
            r ==> final(self).busy_polls() < old(self).busy_polls(),
            !r ==> final(self).busy_polls() == 0,
            final(self).control_writes() == old(self).control_writes(),
    ;

    fn write_key(&mut self, key: u32)
        ensures
            final(self).memory() == old(self).memory(),
            final(self).busy_polls() == old(self).busy_polls(),
            final(self).control_writes() == old(self).control_writes().push(ControlWrite::Key(key)),
    ;

    fn select_word_parallelism(&mut self)
        ensures
            final(self).memory() == old(self).memory(),
            final(self).busy_polls() == old(self).busy_polls(),
            final(self).control_writes() == old(self).control_writes().push(ControlWrite::WordParallelism),
    ;

    fn lock(&mut self)
        ensures
            final(self).memory() == old(self).memory(),
            final(self).busy_polls() == old(self).busy_polls(),
            final(self).control_writes() == old(self).control_writes().push(ControlWrite::Lock),
            final(self).control_writes() == old(self).control_writes().push(ControlWrite::Lock),
    ;

    fn enable_programming(&mut self)
        ensures
            final(self).memory() == old(self).memory(),
            final(self).busy_polls() == old(self).busy_polls(),
            final(self).control_writes() == old(self).control_writes().push(ControlWrite::EnableProgramming),
    ;

    /// Starts erasing main area sector `number` of the memory map.
    fn start_sector_erase(&mut self, number: u8)
        requires
            number < 12,
            old(self).memory().len() == MEMORY_SIZE,
        ensures
            final(self).memory() == erase_span(
                old(self).memory(),
                spec_memory_map()[number as int].start.0 - FLASH_START,
                spec_memory_map()[number as int].end.0 - FLASH_START,
            ),
            final(self).control_writes() == old(self).control_writes().push(ControlWrite::SectorErase(number)),
    ;

    fn program_word(&mut self, address: u32, word: u32)
        requires
            FLASH_START <= address,
            address + 4 <= FLASH_END,
            old(self).memory().len() == MEMORY_SIZE,
        ensures
            final(self).memory() == program_effect(old(self).memory(), address - FLASH_START, word),
            final(self).busy_polls() == old(self).busy_polls(),
            final(self).control_writes() == old(self).control_writes().push(ControlWrite::Program(address, word)),
    ;

    fn read_byte(&self, address: u32) -> (r: u8)
        requires
            FLASH_START <= address < FLASH_END,
            self.memory().len() == MEMORY_SIZE,
        ensures
            r == self.memory()[address - FLASH_START],
    ;
}

/// The writes that unlock the control register: the two keys, then the
/// word program size.
pub open spec fn unlock_sequence() -> Seq<ControlWrite> {
    seq![ControlWrite::Key(UNLOCK_KEY_FIRST), ControlWrite::Key(UNLOCK_KEY_SECOND), ControlWrite::WordParallelism]
}

/// Length of `n` bytes rounded up to whole words.
pub open spec fn padded_len(n: int) -> int {
    (n + 3) / 4 * 4
}

/// First address that programming `len > 0` bytes at `address` erases.
pub open spec fn erase_start(address: int) -> int {
    spec_memory_map()[sector_index_of(address)].start.0 as int
}

/// End of the area that programming `len > 0` bytes at `address` erases.
pub open spec fn erase_end(address: int, len: int) -> int {
    spec_memory_map()[sector_index_of(address + len - 1)].end.0 as int
}

/// Flash contents `m` after programming `data` at `address`: the sectors the
/// range touches are erased, then `data` is written, zero padded to a whole
/// word.
pub open spec fn programmed(m: Seq<u8>, address: int, data: Seq<u8>) -> Seq<u8> {
    Seq::new(
        m.len(),
        |k: int|
            {
                let a = FLASH_START + k;
                if address <= a < address + data.len() {
                    data[a - address]
                } else if address + data.len() <= a < address + padded_len(data.len() as int) {
                    0u8
                } else if data.len() > 0 && erase_start(address) <= a < erase_end(
                    address,
                    data.len() as int,
                ) {
                    0xFFu8
                } else {
                    m[k]
                }
            },
    )
}

/// `e` with the first `upto` bytes from `address` programmed with `data`,
/// zero padded.
pub open spec fn partially_programmed(e: Seq<u8>, address: int, data: Seq<u8>, upto: int) -> Seq<u8> {
    Seq::new(
        e.len(),
        |k: int|
            {
                let a = FLASH_START + k;
                if address <= a < address + upto {
                    if a < address + data.len() {
                        data[a - address]
                    } else {
                        0u8
                    }
                } else {
                    e[k]
                }
            },
    )
}

/// A sector that a writable range touches is writable.
proof fn lemma_touched_writable(s: Seq<Sector>, i: int, start: int, end: int)
    requires
        is_ordered(s),
        range_writable(s, start, end),
        0 <= i < s.len(),
        s[i].touches(start, end),
    ensures
        s[i].writable(),
{
    let a = if start < s[i].start.0 {
        s[i].start.0 as int
    } else {
        start
    };
    assert(writable_address(s, a));
    let j = choose|j: int| 0 <= j < s.len() && (#[trigger] s[j]).writable() && s[j].contains(a);
    lemma_unique_sector(s, i, j, a);
}

/// Addresses of writable sectors lie in the main memory area.
proof fn lemma_writable_address_bounds(a: int)
    requires
        writable_address(spec_memory_map(), a),
    ensures
        FLASH_START <= a < FLASH_END,
{
    lemma_main_sector_bounds();
    let s = spec_memory_map();
    let j = choose|j: int| 0 <= j < s.len() && (#[trigger] s[j]).writable() && s[j].contains(a);
    assert(s[j].in_main_area());
}

proof fn lemma_and_ff(x: u8)
    ensures
        0xFFu8 & x == x,
        x & 0u8 == 0u8,
{
    assert(0xFFu8 & x == x) by (bit_vector);
    assert(x & 0u8 == 0u8) by (bit_vector);
}

/// Programming a word aligned range that lies in writable sectors leaves
/// exactly the programmed bytes in that range.
pub proof fn lemma_read_after_program(m: Seq<u8>, address: int, data: Seq<u8>)
    requires
        m.len() == MEMORY_SIZE,
        address % 4 == 0,
        range_writable(spec_memory_map(), address, address + data.len()),
    ensures
        data.len() > 0 ==> FLASH_START <= address && address + data.len() <= FLASH_END,
        data.len() > 0 ==> programmed(m, address, data).subrange(
            address - FLASH_START,
            address - FLASH_START + data.len(),
        ) == data,
{
    if data.len() > 0 {
        assert(writable_address(spec_memory_map(), address));
        lemma_writable_address_bounds(address);
        assert(writable_address(spec_memory_map(), address + data.len() - 1));
        lemma_writable_address_bounds(address + data.len() - 1);
        assert(programmed(m, address, data).subrange(address - FLASH_START, address - FLASH_START + data.len())
            =~= data);
    }
}

pub struct McuFlash<R: FlashController> {
    flash: R,
}

impl<R: FlashController> McuFlash<R> {
    /// Contents of the main memory area.
    pub closed spec fn memory(&self) -> Seq<u8> {
        self.flash.memory()
    }

    pub closed spec fn busy_polls(&self) -> nat {
        self.flash.busy_polls()
    }

    /// The control register writes made so far, in order.
    pub closed spec fn control_writes(&self) -> Seq<ControlWrite> {
        self.flash.control_writes()
    }

    pub open spec fn well_formed(&self) -> bool {
        self.memory().len() == MEMORY_SIZE
    }

    pub fn new(flash: R) -> (r: Result<Self, Error>)
        requires
            flash.memory().len() == MEMORY_SIZE,
        ensures
            r matches Ok(f) && f.memory() == flash.memory() && f.busy_polls() == flash.busy_polls()
                && f.well_formed(),
    {
        Ok(Self { flash })
    }

    /// Unlocks the control register, with word access parallelism.
    fn unlock(&mut self) -> (r: nb::Result<(), Error>)
        ensures
            final(self).memory() == old(self).memory(),
            r is Ok <==> old(self).busy_polls() == 0,
            r is Ok ==> final(self).busy_polls() == 0,
            r matches Err(e) ==> e is WouldBlock && final(self).busy_polls() < old(self).busy_polls(),
            r is Ok ==> final(self).control_writes() == old(self).control_writes() + unlock_sequence(),
            r is Err ==> final(self).control_writes() == old(self).control_writes(),
    {
        if self.is_busy() {
            return Err(nb::Error::WouldBlock);
        }
        self.flash.write_key(UNLOCK_KEY_FIRST);
        self.flash.write_key(UNLOCK_KEY_SECOND);
        self.flash.select_word_parallelism();
        assert(self.control_writes() =~= old(self).control_writes() + unlock_sequence());
        Ok(())
    }

    fn lock(&mut self)
        ensures
            final(self).memory() == old(self).memory(),
            final(self).busy_polls() == old(self).busy_polls(),
            final(self).control_writes() == old(self).control_writes().push(ControlWrite::Lock),
    {
        self.flash.lock();
    }

    /// Erases a main area sector of the memory map.
    pub fn erase(&mut self, sector: &Sector) -> (r: nb::Result<(), Error>)
        requires
            old(self).well_formed(),
        ensures
            final(self).well_formed(),
            !(sector.in_main_area() && spec_memory_map().contains(*sector)) ==> r == Err::<(), nb::Error<Error>>(
                nb::Error::Other(Error::MemoryNotWritable),
            ) && *final(self) == *old(self),
            sector.in_main_area() && spec_memory_map().contains(*sector) ==> {
                ||| r is Ok && final(self).memory() == erase_span(
                    old(self).memory(),
                    sector.start.0 - FLASH_START,
                    sector.end.0 - FLASH_START,
                )
                ||| r == Err::<(), nb::Error<Error>>(nb::Error::WouldBlock) && final(self).memory() == old(self).memory()
                    && final(self).busy_polls() < old(self).busy_polls()
            },
            r is Ok ==> exists|n: u8|
                #[trigger] spec_memory_map()[n as int] == *sector && final(self).control_writes() == old(
                    self,
                ).control_writes() + unlock_sequence() + seq![ControlWrite::SectorErase(n), ControlWrite::Lock],
            r is Err ==> final(self).control_writes() == old(self).control_writes(),
    {
        let number = match sector.number() {
            Some(number) => number,
            None => return Err(nb::Error::Other(Error::MemoryNotWritable)),
        };
        proof {
            lemma_main_sector_bounds();
        }
        self.unlock()?;
        self.flash.start_sector_erase(number);
        self.lock();
        assert(self.control_writes() =~= old(self).control_writes() + unlock_sequence() + seq![
            ControlWrite::SectorErase(number),
            ControlWrite::Lock,
        ]);
        Ok(())
    }

    /// Programs `bytes` at `address`. Every sector that the range touches is
    /// erased first, then the bytes are written word by word, the last word
    /// zero padded.
    #[verifier::rlimit(50)]
    pub fn write(&mut self, address: Address, bytes: &[u8]) -> (r: nb::Result<(), Error>)
        requires
            old(self).well_formed(),
        ensures
            final(self).well_formed(),
            address.0 % 4 != 0 ==> r == Err::<(), nb::Error<Error>>(nb::Error::Other(Error::MisalignedAccess))
                && *final(self) == *old(self),
            address.0 % 4 == 0 && !range_writable(spec_memory_map(), address.0 as int, address.0 + bytes@.len())
                ==> r == Err::<(), nb::Error<Error>>(nb::Error::Other(Error::MemoryNotWritable))
                && *final(self) == *old(self),
            address.0 % 4 == 0 && range_writable(spec_memory_map(), address.0 as int, address.0 + bytes@.len())
                ==> {
                ||| old(self).busy_polls() == 0 && r is Ok && final(self).memory() == programmed(
                    old(self).memory(),
                    address.0 as int,
                    bytes@,
                )
                ||| old(self).busy_polls() > 0 && r == Err::<(), nb::Error<Error>>(nb::Error::WouldBlock)
                    && final(self).memory() == old(self).memory() && final(self).busy_polls()
                    < old(self).busy_polls() && final(self).control_writes() == old(self).control_writes()
            },
    {
        if address.0 % 4 != 0 {
            return Err(nb::Error::Other(Error::MisalignedAccess));
        }
        let len = bytes.len();
        if len > 0 && (address.0 >= FLASH_END || len > (FLASH_END - address.0) as usize) {
            proof {
                let a: int = if address.0 >= FLASH_END {
                    address.0 as int
                } else {
                    FLASH_END as int
                };
                if writable_address(spec_memory_map(), a) {
                    lemma_writable_address_bounds(a);
                }
                assert(!range_writable(spec_memory_map(), address.0 as int, address.0 + bytes@.len()));
            }
            return Err(nb::Error::Other(Error::MemoryNotWritable));
        }
        let end: u32 = if len == 0 {
            address.0
        } else {
            address.0 + len as u32
        };
        if !Range(address, Address(end)).is_writable() {
            return Err(nb::Error::Other(Error::MemoryNotWritable));
        }
        if self.is_busy() {
            return Err(nb::Error::WouldBlock);
        }
        let ghost m0 = self.memory();
        if len == 0 {
            assert(programmed(m0, address.0 as int, bytes@) =~= m0);
            return Ok(());
        }
        proof {
            lemma_memory_map_sound();
            lemma_main_sector_bounds();
        }
        let map = memory_map();
        let ghost s = spec_memory_map();
        let ghost start = address.0 as int;
        // Skip the sectors that end before the range.
        let mut index: usize = 0;
        while index < map.sectors.len() && map.sectors[index].end.0 <= address.0
            invariant
                map.sectors@ == s,
                s == spec_memory_map(),
                0 <= index <= s.len(),
                forall|k: int| 0 <= k < index ==> (#[trigger] s[k]).end.0 <= address.0,
            decreases s.len() - index,
        {
            index += 1;
        }
        let ghost first = index as int;
        proof {
            assert(writable_address(s, start));
            let j = choose|j: int| 0 <= j < s.len() && (#[trigger] s[j]).writable() && s[j].contains(start);
            assert(j >= first);
            if j > first {
                assert(s[first].end.0 <= s[j].start.0);
            }
            assert(s[first].contains(start));
            let c = sector_index_of(start);
            assert(0 <= c < SECTOR_NUMBER && s[c].contains(start));
            lemma_unique_sector(s, c, first, start);
            lemma_touched_writable(s, first, start, end as int);
        }
        let ghost lo: int = s[first].start.0 as int;
        let ghost mut hi: int = lo;
        // Erase the sectors that the range touches.
        while index < map.sectors.len() && map.sectors[index].start.0 < end
            invariant
                map.sectors@ == s,
                s == spec_memory_map(),
                is_sound_map(s),
                s.len() == SECTOR_NUMBER,
                range_writable(s, start, end as int),
                start == address.0,
                start < end,
                end == address.0 + len,
                0 <= first <= index <= s.len(),
                first < s.len(),
                s[first].contains(start),
                lo == s[first].start.0,
                index == first ==> hi == lo,
                index > first ==> hi == s[index - 1].end.0 && s[index - 1].touches(start, end as int),
                lo <= hi <= FLASH_END,
                FLASH_START <= lo,
                self.well_formed(),
                self.memory() == erase_span(m0, lo - FLASH_START, hi - FLASH_START),
                forall|k: int| 0 <= k < first ==> (#[trigger] s[k]).end.0 <= address.0,
                forall|k: int| 0 <= k < SECTOR_NUMBER ==> (#[trigger] s[k]).start.0 < s[k].end.0,
                forall|k: int|
                    0 <= k < SECTOR_NUMBER && (#[trigger] s[k]).in_main_area() ==> k < 12 && FLASH_START
                        <= s[k].start.0 && s[k].end.0 <= FLASH_END && s[k].end.0 % 4 == 0,
            decreases s.len() - index,
        {
            let sector = map.sectors[index];
            proof {
                let i = index as int;
                if i > first {
                    assert(s[i - 1].end.0 <= s[i].start.0);
                    assert(s[i - 1].start.0 <= s[i - 1].end.0);
                }
                assert(s[i].start.0 <= s[i].end.0);
                assert(s[i].touches(start, end as int));
                lemma_touched_writable(s, i, start, end as int);
                if i > first {
                    lemma_touched_writable(s, i - 1, start, end as int);
                    assert(s[i - 1].in_main_area() && s[i].in_main_area());
                    assert(s[i - 1].end.0 == s[i].start.0);
                }
                assert(s.contains(sector));
            }
            loop
                invariant_except_break
                    self.memory() == erase_span(m0, lo - FLASH_START, hi - FLASH_START),
                invariant
                    s == spec_memory_map(),
                    sector == s[index as int],
                    sector.in_main_area(),
                    s.contains(sector),
                    self.well_formed(),
                ensures
                    self.well_formed(),
                    self.memory() == erase_span(
                        erase_span(m0, lo - FLASH_START, hi - FLASH_START),
                        sector.start.0 - FLASH_START,
                        sector.end.0 - FLASH_START,
                    ),
                decreases self.busy_polls(),
            {
                match self.erase(&sector) {
                    Ok(()) => break,
                    Err(nb::Error::WouldBlock) => {},
                    Err(nb::Error::Other(_)) => {
                        // A main area sector of the map is never refused.
                        assert(false);
                    },
                }
            }
            proof {
                assert(self.memory() =~= erase_span(m0, lo - FLASH_START, sector.end.0 - FLASH_START));
                hi = sector.end.0 as int;
            }
            index += 1;
        }
        proof {
            let last = index - 1;
            assert(index > first) by {
                if index == first {
                    assert(s[first].start.0 <= start < end);
                }
            }
            let a = end - 1;
            assert(writable_address(s, a as int));
            let j = choose|j: int| 0 <= j < s.len() && (#[trigger] s[j]).writable() && s[j].contains(a as int);
            if j < first {
                assert(s[j].end.0 <= address.0);
            }
            if j > last {
                if index < s.len() {
                    if j > index {
                        assert(s[index as int].end.0 <= s[j].start.0);
                        assert(s[index as int].start.0 < s[index as int].end.0);
                    }
                }
            }
            if j < last {
                assert(s[j].end.0 <= s[last].start.0);
            }
            assert(j == last);
            let c = sector_index_of(a as int);
            assert(0 <= c < SECTOR_NUMBER && s[c].contains(a as int));
            lemma_unique_sector(s, c, last, a as int);
            assert(hi == erase_end(start, len as int));
            assert(lo == erase_start(start));
        }
        // Program the bytes word by word.
        self.flash.enable_programming();
        let ghost erased = self.memory();
        let words: usize = if len % 4 == 0 {
            len / 4
        } else {
            len / 4 + 1
        };
        assert(words * 4 == padded_len(len as int));
        let mut w: usize = 0;
        while w < words
            invariant
                0 <= w <= words,
                words * 4 == padded_len(len as int),
                len == bytes@.len(),
                words * 4 < len + 4,
                start == address.0,
                start % 4 == 0,
                lo <= start,
                start + len <= hi,
                hi <= FLASH_END,
                hi % 4 == 0,
                FLASH_START <= lo,
                erased == erase_span(m0, lo - FLASH_START, hi - FLASH_START),
                erased.len() == MEMORY_SIZE,
                self.well_formed(),
                self.memory() == partially_programmed(erased, start, bytes@, 4 * w),
            decreases words - w,
        {
            let base = 4 * w;
            let b0 = if base < len { bytes[base] } else { 0u8 };
            let b1 = if base + 1 < len { bytes[base + 1] } else { 0u8 };
            let b2 = if base + 2 < len { bytes[base + 2] } else { 0u8 };
            let b3 = if base + 3 < len { bytes[base + 3] } else { 0u8 };
            let chunk: Vec<u8> = vec![b0, b1, b2, b3];
            let word = u32_from_le_bytes(chunk.as_slice());
            let target: u32 = address.0 + base as u32;
            proof {
                lemma_auto_spec_u32_to_from_le_bytes();
                assert(spec_u32_to_le_bytes(word) == chunk@);
                assert(target + 4 <= hi) by (nonlinear_arith)
                    requires
                        target == start + base,
                        base < len,
                        start + len <= hi,
                        start % 4 == 0,
                        base % 4 == 0,
                        hi % 4 == 0,
                ;
            }
            let ghost before = self.memory();
            self.flash.program_word(target, word);
            proof {
                assert forall|k: int| 0 <= k < before.len() implies #[trigger] self.memory()[k]
                    == partially_programmed(erased, start, bytes@, 4 * w + 4)[k] by {
                    let a = FLASH_START + k;
                    if target <= a < target + 4 {
                        lemma_and_ff(chunk@[a - target]);
                        assert(before[k] == 0xFFu8);
                    }
                }
                assert(self.memory() =~= partially_programmed(erased, start, bytes@, 4 * w + 4));
            }
            w += 1;
        }
        self.lock();
        proof {
            assert(self.memory() =~= programmed(m0, start, bytes@));
        }
        Ok(())
    }

    /// Programs `bytes` at `address` as `write` does, polling until the
    /// controller is ready.
    pub fn write_blocking(&mut self, address: Address, bytes: &[u8]) -> (r: Result<(), Error>)
        requires
            old(self).well_formed(),
        ensures
            final(self).well_formed(),
            address.0 % 4 != 0 ==> r == Err::<(), Error>(Error::MisalignedAccess) && *final(self) == *old(
                self,
            ),
            address.0 % 4 == 0 && !range_writable(spec_memory_map(), address.0 as int, address.0 + bytes@.len())
                ==> r == Err::<(), Error>(Error::MemoryNotWritable) && *final(self) == *old(self),
            address.0 % 4 == 0 && range_writable(spec_memory_map(), address.0 as int, address.0 + bytes@.len())
                ==> r is Ok && final(self).memory() == programmed(old(self).memory(), address.0 as int, bytes@),
    {
        loop
            invariant
                self.well_formed(),
                self.memory() == old(self).memory(),
                address.0 % 4 != 0 || !range_writable(spec_memory_map(), address.0 as int, address.0 + bytes@.len())
                    ==> *self == *old(self),
            decreases self.busy_polls(),
        {
            match self.write(address, bytes) {
                Ok(()) => return Ok(()),
                Err(nb::Error::WouldBlock) => {},
                Err(nb::Error::Other(e)) => return Err(e),
            }
        }
    }

    /// Reads `bytes.len()` bytes of the main memory area from `address`.
    pub fn read(&self, address: Address, bytes: &mut [u8]) -> (r: Result<(), Error>)
        requires
            self.well_formed(),
        ensures
            r is Ok <==> FLASH_START <= address.0 && address.0 + old(bytes)@.len() <= FLASH_END,
            r is Err ==> r == Err::<(), Error>(Error::MemoryNotReachable) && final(bytes)@ == old(bytes)@,
            r is Ok ==> final(bytes)@ == self.memory().subrange(
                address.0 - FLASH_START,
                address.0 - FLASH_START + old(bytes)@.len(),
            ),
    {
        let len = bytes.len();
        if address.0 < FLASH_START || address.0 > FLASH_END || len > (FLASH_END - address.0) as usize {
            return Err(Error::MemoryNotReachable);
        }
        let ghost offset = address.0 - FLASH_START;
        let mut i: usize = 0;
        while i < len
            invariant
                0 <= i <= len,
                len == bytes@.len(),
                FLASH_START <= address.0,
                address.0 + len <= FLASH_END,
                offset == address.0 - FLASH_START,
                self.well_formed(),
                forall|k: int| 0 <= k < i ==> bytes@[k] == self.memory()[offset + k],
            decreases len - i,
        {
            let byte = self.flash.read_byte(address.0 + i as u32);
            bytes[i] = byte;
            i += 1;
        }
        assert(bytes@ =~= self.memory().subrange(offset, offset + len));
        Ok(())
    }

    pub fn is_busy(&mut self) -> (r: bool)
        ensures
            final(self).memory() == old(self).memory(),
            r == (old(self).busy_polls() > 0),
            r ==> final(self).busy_polls() < old(self).busy_polls(),
            !r ==> final(self).busy_polls() == 0,
            final(self).control_writes() == old(self).control_writes(),
    {
        self.flash.is_busy()
    }
}

} // verus!
