//! The boot decision: apply a requested update or restore, scan the bootable
//! banks for a valid image, fall back once on the golden image, and pick the
//! bank that control goes to.

use crate::error::{report_text, Error};
use crate::serial::Write;
use crate::flash::{in_storage, FlashAddress, ReadWrite};
use crate::image::{bank_bytes, verify_bank, Bank, ImageVerifier};
use crate::update_signal::{UpdateSignal, UpdateSignalStore};
use vstd::prelude::*;

verus! {

/// How the boot decision ends.
#[derive(Copy, Clone, Debug, PartialEq)]
pub enum BootOutcome {
    /// Control goes to the image of the bank with this index, whose entry
    /// point is at this address.
    HandingOff { index: u8, address: u32 },
    /// No image can be run; the error says why.
    Fatal(Error),
}

/// Reports the end of the boot decision on the diagnostic channel: the
/// greeting before a hand off, the error when the decision is fatal.
pub fn announce<S: Write>(outcome: &BootOutcome, greeting: &str, serial: &mut S)
    ensures
        outcome is HandingOff ==> final(serial).written() == old(serial).written() + greeting@ + "\n"@,
        outcome matches BootOutcome::Fatal(e) ==> final(serial).written() == old(serial).written() + report_text(
            *e,
        ) + "\n"@,
{
    match outcome {
        BootOutcome::HandingOff { .. } => {
            serial.write_str(greeting);
            serial.write_str("\n");
            assert(serial.written() =~= old(serial).written() + greeting@ + "\n"@);
        },
        BootOutcome::Fatal(error) => error.report(serial),
    }
}

/// The role of a bank in the catalog.
#[derive(Copy, Clone, Debug, PartialEq, Eq, Structural)]
pub enum BankKind {
    Bootable,
    Golden,
    /// Neither bootable nor golden: where the application stages updates.
    Staging,
}

impl BankKind {
    pub open spec fn holds<A>(self, bank: Bank<A>) -> bool {
        match self {
            BankKind::Bootable => bank.bootable,
            BankKind::Golden => bank.is_golden,
            BankKind::Staging => !bank.bootable && !bank.is_golden,
        }
    }
}

/// The bank holds an image that `verifier` accepts, in a device with these
/// contents.
pub open spec fn valid_in<A: FlashAddress>(verifier: ImageVerifier, contents: Seq<u8>, origin: int, bank: Bank<A>) -> bool {
    &&& in_storage(origin, contents.len() as int, bank.location.value(), bank.size as int)
    &&& verifier.verdict(bank_bytes(contents, origin, bank)) is Ok
}

/// Index of the first bank of `kind` from `from` on, or -1.
pub open spec fn first_of<A>(banks: Seq<Bank<A>>, kind: BankKind, from: int) -> int
    decreases banks.len() - from,
{
    if from < 0 || from >= banks.len() {
        -1
    } else if kind.holds(banks[from]) {
        from
    } else {
        first_of(banks, kind, from + 1)
    }
}

/// Index of the first bootable bank from `from` on that holds a valid
/// image, or -1.
pub open spec fn first_valid<A: FlashAddress>(
    verifier: ImageVerifier,
    contents: Seq<u8>,
    origin: int,
    banks: Seq<Bank<A>>,
    from: int,
) -> int
    decreases banks.len() - from,
{
    if from < 0 || from >= banks.len() {
        -1
    } else if banks[from].bootable && valid_in(verifier, contents, origin, banks[from]) {
        from
    } else {
        first_valid(verifier, contents, origin, banks, from + 1)
    }
}

proof fn lemma_first_of_range<A>(banks: Seq<Bank<A>>, kind: BankKind, from: int)
    requires
        0 <= from,
    ensures
        first_of(banks, kind, from) == -1 || (from <= first_of(banks, kind, from) < banks.len()
            && kind.holds(banks[first_of(banks, kind, from)])),
    decreases banks.len() - from,
{
    if from < banks.len() && !kind.holds(banks[from]) {
        lemma_first_of_range(banks, kind, from + 1);
    }
}

proof fn lemma_first_valid_range<A: FlashAddress>(verifier: ImageVerifier, contents: Seq<u8>, origin: int, banks: Seq<Bank<A>>, from: int)
    requires
        0 <= from,
    ensures
        first_valid(verifier, contents, origin, banks, from) == -1 || (from <= first_valid(verifier, contents, origin, banks, from)
            < banks.len() && banks[first_valid(verifier, contents, origin, banks, from)].bootable && valid_in(
            verifier,
            contents,
            origin,
            banks[first_valid(verifier, contents, origin, banks, from)],
        )),
    decreases banks.len() - from,
{
    if from < banks.len() && !(banks[from].bootable && valid_in(verifier, contents, origin, banks[from])) {
        lemma_first_valid_range(verifier, contents, origin, banks, from + 1);
    }
}

/// When the first bootable bank holds a valid image, it is the first valid one.
proof fn lemma_first_valid_at_first_bootable<A: FlashAddress>(
    verifier: ImageVerifier,
    contents: Seq<u8>,
    origin: int,
    banks: Seq<Bank<A>>,
    p: int,
    from: int,
)
    requires
        0 <= from <= p < banks.len(),
        first_of(banks, BankKind::Bootable, from) == p,
        valid_in(verifier, contents, origin, banks[p]),
    ensures
        first_valid(verifier, contents, origin, banks, from) == p,
    decreases p - from,
{
    lemma_first_of_range(banks, BankKind::Bootable, from + 1);
    if from < p {
        lemma_first_valid_at_first_bootable(verifier, contents, origin, banks, p, from + 1);
    }
}

/// Position of the first bank of `kind` in `banks`.
pub fn find_bank<A: FlashAddress>(banks: &Vec<Bank<A>>, kind: BankKind) -> (r: Option<usize>)
    ensures
        r matches Some(i) ==> i == first_of(banks@, kind, 0) && i < banks@.len() && kind.holds(banks@[i as int]),
        r is None ==> first_of(banks@, kind, 0) == -1,
{
    let mut i: usize = 0;
    while i < banks.len()
        invariant
            0 <= i <= banks@.len(),
            first_of(banks@, kind, 0) == first_of(banks@, kind, i as int),
        decreases banks@.len() - i,
    {
        let bank = banks[i];
        let holds = match kind {
            BankKind::Bootable => bank.bootable,
            BankKind::Golden => bank.is_golden,
            BankKind::Staging => !bank.bootable && !bank.is_golden,
        };
        if holds {
            return Some(i);
        }
        i += 1;
    }
    None
}

/// Position of the first bootable bank of `banks` that holds a valid image.
pub fn scan<F: ReadWrite>(flash: &mut F, banks: &Vec<Bank<F::Address>>, verifier: &ImageVerifier) -> (r: Option<usize>)
    requires
        old(flash).ready(),
    ensures
        final(flash).ready(),
        final(flash).contents() == old(flash).contents(),
        final(flash).origin() == old(flash).origin(),
        r matches Some(i) ==> i == first_valid(*verifier, old(flash).contents(), old(flash).origin(), banks@, 0)
            && i < banks@.len(),
        r is None ==> first_valid(*verifier, old(flash).contents(), old(flash).origin(), banks@, 0) == -1,
{
    let ghost contents = flash.contents();
    let ghost origin = flash.origin();
    let mut i: usize = 0;
    while i < banks.len()
        invariant
            0 <= i <= banks@.len(),
            flash.ready(),
            flash.contents() == contents,
            flash.origin() == origin,
            contents == old(flash).contents(),
            origin == old(flash).origin(),
            first_valid(*verifier, contents, origin, banks@, 0) == first_valid(*verifier, contents, origin, banks@, i as int),
        decreases banks@.len() - i,
    {
        let bank = banks[i];
        if bank.bootable {
            match verify_bank(flash, &bank, verifier) {
                Ok(_) => return Some(i),
                Err(_) => {},
            }
        }
        i += 1;
    }
    None
}

/// Reads the bytes of `bank`.
pub fn read_bank<F: ReadWrite>(flash: &mut F, bank: &Bank<F::Address>) -> (r: Result<Vec<u8>, Error>)
    requires
        old(flash).ready(),
    ensures
        final(flash).ready(),
        final(flash).contents() == old(flash).contents(),
        final(flash).origin() == old(flash).origin(),
        r is Ok <==> in_storage(
            old(flash).origin(),
            old(flash).contents().len() as int,
            bank.location.value(),
            bank.size as int,
        ),
        r matches Ok(bytes) ==> bytes@ == bank_bytes(old(flash).contents(), old(flash).origin(), *bank),
{
    let mut buffer: Vec<u8> = vec![0u8; bank.size];
    match flash.read(bank.location, buffer.as_mut_slice()) {
        Ok(()) => Ok(buffer),
        Err(e) => Err(e),
    }
}

/// Two banks of one device: distinct indices, not both golden, not both
/// bootable, and address ranges that do not overlap.
pub open spec fn banks_compatible<A: FlashAddress>(x: Bank<A>, y: Bank<A>) -> bool {
    &&& x.index != y.index
    &&& !(x.is_golden && y.is_golden)
    &&& !(x.bootable && y.bootable)
    &&& (x.location.value() + x.size <= y.location.value() || y.location.value() + y.size <= x.location.value())
}

/// Two banks of different devices: distinct indices, not both golden.
pub open spec fn banks_compatible_across<A, B>(x: Bank<A>, y: Bank<B>) -> bool {
    x.index != y.index && !(x.is_golden && y.is_golden)
}

pub open spec fn list_is_sound<A: FlashAddress>(banks: Seq<Bank<A>>) -> bool {
    forall|i: int, j: int| 0 <= i < j < banks.len() ==> banks_compatible(#[trigger] banks[i], #[trigger] banks[j])
}

/// The bank catalog is sound: indices are unique, at most one bank is
/// golden, each device has at most one bootable bank, and the banks of a
/// device do not overlap.
pub open spec fn catalog_is_sound<A: FlashAddress, B: FlashAddress>(mcu: Seq<Bank<A>>, external: Seq<Bank<B>>) -> bool {
    &&& list_is_sound(mcu)
    &&& list_is_sound(external)
    &&& forall|i: int, j: int|
        0 <= i < mcu.len() && 0 <= j < external.len() ==> banks_compatible_across(#[trigger] mcu[i], #[trigger] external[j])
}

fn check_pair<A: FlashAddress>(x: &Bank<A>, y: &Bank<A>) -> (r: bool)
    ensures
        r == banks_compatible(*x, *y),
{
    let x_start = x.location.raw() as u128;
    let y_start = y.location.raw() as u128;
    let x_end = x_start + x.size as u128;
    let y_end = y_start + y.size as u128;
    x.index != y.index && !(x.is_golden && y.is_golden) && !(x.bootable && y.bootable) && (x_end <= y_start
        || y_end <= x_start)
}

fn check_list<A: FlashAddress>(banks: &Vec<Bank<A>>) -> (r: bool)
    ensures
        r == list_is_sound(banks@),
{
    let n = banks.len();
    let mut i: usize = 0;
    while i < n
        invariant
            n == banks@.len(),
            0 <= i <= n,
            forall|a: int, b: int| 0 <= a < b < n && a < i ==> banks_compatible(#[trigger] banks@[a], #[trigger] banks@[b]),
        decreases n - i,
    {
        let mut j: usize = i + 1;
        while j < n
            invariant
                n == banks@.len(),
                0 <= i < n,
                i + 1 <= j <= n,
                forall|a: int, b: int| 0 <= a < b < n && a < i ==> banks_compatible(#[trigger] banks@[a], #[trigger] banks@[b]),
                forall|b: int| i < b < j ==> banks_compatible(banks@[i as int], #[trigger] banks@[b]),
            decreases n - j,
        {
            if !check_pair(&banks[i], &banks[j]) {
                return false;
            }
            j += 1;
        }
        i += 1;
    }
    true
}

/// Checks the bank catalog before any flash operation.
pub fn check_catalog<A: FlashAddress, B: FlashAddress>(mcu: &Vec<Bank<A>>, external: &Vec<Bank<B>>) -> (r: bool)
    ensures
        r == catalog_is_sound(mcu@, external@),
{
    if !check_list(mcu) || !check_list(external) {
        return false;
    }
    let mut i: usize = 0;
    while i < mcu.len()
        invariant
            0 <= i <= mcu@.len(),
            list_is_sound(mcu@),
            list_is_sound(external@),
            forall|a: int, b: int|
                0 <= a < i && 0 <= b < external@.len() ==> banks_compatible_across(#[trigger] mcu@[a], #[trigger] external@[b]),
        decreases mcu@.len() - i,
    {
        let mut j: usize = 0;
        while j < external.len()
            invariant
                0 <= i < mcu@.len(),
                0 <= j <= external@.len(),
                list_is_sound(mcu@),
                list_is_sound(external@),
                forall|a: int, b: int|
                    0 <= a < i && 0 <= b < external@.len() ==> banks_compatible_across(#[trigger] mcu@[a], #[trigger] external@[b]),
                forall|b: int| 0 <= b < j ==> banks_compatible_across(mcu@[i as int], #[trigger] external@[b]),
            decreases external@.len() - j,
        {
            let x = mcu[i];
            let y = external[j];
            if x.index == y.index || (x.is_golden && y.is_golden) {
                return false;
            }
            j += 1;
        }
        i += 1;
    }
    true
}

/// Where a bank lies: its position in the MCU or in the external catalog.
#[derive(Copy, Clone, Debug, PartialEq, Eq, Structural)]
pub enum Slot {
    Mcu(usize),
    External(usize),
}

/// Orchestrates the boot of one power cycle over the MCU flash, the
/// external flash and their bank catalogs.
pub struct BootManager<M: ReadWrite, E: ReadWrite, U: UpdateSignalStore> {
    pub mcu_flash: M,
    pub external_flash: E,
    pub mcu_banks: Vec<Bank<M::Address>>,
    pub external_banks: Vec<Bank<E::Address>>,
    pub update_signal: Option<U>,
    pub verifier: ImageVerifier,
    pub recovery_enabled: bool,
    /// Golden image copies made in this boot cycle.
    pub restore_copies: u32,
}

impl<M: ReadWrite, E: ReadWrite, U: UpdateSignalStore> BootManager<M, E, U> {
    pub open spec fn ready(&self) -> bool {
        self.mcu_flash.ready() && self.external_flash.ready()
    }

    /// The primary bootable bank: the first bootable bank of the MCU flash.
    pub open spec fn primary(&self) -> int {
        first_of(self.mcu_banks@, BankKind::Bootable, 0)
    }

    /// The first bank of `kind`, searched in the MCU catalog, then in the
    /// external one.
    pub open spec fn slot_of(&self, kind: BankKind) -> Option<Slot> {
        if first_of(self.mcu_banks@, kind, 0) >= 0 {
            Some(Slot::Mcu(first_of(self.mcu_banks@, kind, 0) as usize))
        } else if first_of(self.external_banks@, kind, 0) >= 0 {
            Some(Slot::External(first_of(self.external_banks@, kind, 0) as usize))
        } else {
            None
        }
    }

    pub open spec fn slot_size(&self, slot: Slot) -> int {
        match slot {
            Slot::Mcu(i) => self.mcu_banks@[i as int].size as int,
            Slot::External(i) => self.external_banks@[i as int].size as int,
        }
    }

    pub open spec fn slot_readable(&self, slot: Slot) -> bool {
        match slot {
            Slot::Mcu(i) => in_storage(
                self.mcu_flash.origin(),
                self.mcu_flash.contents().len() as int,
                self.mcu_banks@[i as int].location.value(),
                self.mcu_banks@[i as int].size as int,
            ),
            Slot::External(i) => in_storage(
                self.external_flash.origin(),
                self.external_flash.contents().len() as int,
                self.external_banks@[i as int].location.value(),
                self.external_banks@[i as int].size as int,
            ),
        }
    }

    pub open spec fn slot_bytes(&self, slot: Slot) -> Seq<u8> {
        match slot {
            Slot::Mcu(i) => bank_bytes(self.mcu_flash.contents(), self.mcu_flash.origin(), self.mcu_banks@[i as int]),
            Slot::External(i) => bank_bytes(
                self.external_flash.contents(),
                self.external_flash.origin(),
                self.external_banks@[i as int],
            ),
        }
    }

    /// The bank with this index and entry address is bootable and holds a
    /// valid image.
    pub open spec fn runnable(&self, index: u8, address: u32) -> bool {
        ||| exists|i: int|
            0 <= i < self.mcu_banks@.len() && (#[trigger] self.mcu_banks@[i]).index == index
                && self.mcu_banks@[i].location.value() == address && self.mcu_banks@[i].bootable
                && valid_in(self.verifier, self.mcu_flash.contents(), self.mcu_flash.origin(), self.mcu_banks@[i])
        ||| exists|i: int|
            0 <= i < self.external_banks@.len() && (#[trigger] self.external_banks@[i]).index == index
                && self.external_banks@[i].location.value() == address && self.external_banks@[i].bootable
                && valid_in(
                self.verifier,
                self.external_flash.contents(),
                self.external_flash.origin(),
                self.external_banks@[i],
            )
    }

    /// The catalogs, the configuration and the update signal are kept.
    pub open spec fn same_setup(&self, other: &Self) -> bool {
        &&& self.mcu_banks == other.mcu_banks
        &&& self.external_banks == other.external_banks
        &&& self.recovery_enabled == other.recovery_enabled
        &&& self.verifier == other.verifier
        &&& self.mcu_flash.origin() == other.mcu_flash.origin()
        &&& self.external_flash.origin() == other.external_flash.origin()
    }

    /// Reads the bytes of the bank at `slot`.
    fn read_slot(&mut self, slot: Slot) -> (r: Result<Vec<u8>, Error>)
        requires
            old(self).ready(),
            match slot {
                Slot::Mcu(i) => i < old(self).mcu_banks@.len(),
                Slot::External(i) => i < old(self).external_banks@.len(),
            },
        ensures
            final(self).ready(),
            final(self).same_setup(old(self)),
            final(self).mcu_flash.contents() == old(self).mcu_flash.contents(),
            final(self).external_flash.contents() == old(self).external_flash.contents(),
            final(self).update_signal == old(self).update_signal,
            final(self).restore_copies == old(self).restore_copies,
            r is Ok <==> old(self).slot_readable(slot),
            r matches Ok(bytes) ==> bytes@ == old(self).slot_bytes(slot),
    {
        match slot {
            Slot::Mcu(i) => {
                let bank = self.mcu_banks[i];
                read_bank(&mut self.mcu_flash, &bank)
            },
            Slot::External(i) => {
                let bank = self.external_banks[i];
                read_bank(&mut self.external_flash, &bank)
            },
        }
    }


    /// Takes the devices and the bank catalogs of a boot cycle, once the
    /// catalog checks out.
    pub fn new(
        mcu_flash: M,
        external_flash: E,
        mcu_banks: Vec<Bank<M::Address>>,
        external_banks: Vec<Bank<E::Address>>,
        update_signal: Option<U>,
        verifier: ImageVerifier,
        recovery_enabled: bool,
    ) -> (r: Result<Self, Error>)
        ensures
            r is Ok <==> catalog_is_sound(mcu_banks@, external_banks@),
            r is Err ==> r == Err::<Self, Error>(Error::ConfigurationError("Unsound bank catalog")),
            r matches Ok(manager) ==> {
                &&& manager.mcu_flash == mcu_flash
                &&& manager.external_flash == external_flash
                &&& manager.mcu_banks == mcu_banks
                &&& manager.external_banks == external_banks
                &&& manager.update_signal == update_signal
                &&& manager.verifier == verifier
                &&& manager.recovery_enabled == recovery_enabled
                &&& manager.restore_copies == 0
            },
    {
        if !check_catalog(&mcu_banks, &external_banks) {
            return Err(Error::ConfigurationError("Unsound bank catalog"));
        }
        Ok(BootManager {
            mcu_flash,
            external_flash,
            mcu_banks,
            external_banks,
            update_signal,
            verifier,
            recovery_enabled,
            restore_copies: 0,
        })
    }

    /// The signal that this boot cycle acts on.
    pub open spec fn signal(&self) -> UpdateSignal {
        match self.update_signal {
            Some(store) => store.stored(),
            None => UpdateSignal::Stable,
        }
    }

    /// The hand off to a bank of the MCU catalog.
    pub open spec fn hand_off_mcu(&self, i: int) -> BootOutcome {
        BootOutcome::HandingOff {
            index: self.mcu_banks@[i].index,
            address: self.mcu_banks@[i].location.value() as u32,
        }
    }

    /// The hand off to a bank of the external catalog.
    pub open spec fn hand_off_external(&self, i: int) -> BootOutcome {
        BootOutcome::HandingOff {
            index: self.external_banks@[i].index,
            address: self.external_banks@[i].location.value() as u32,
        }
    }

    /// Outside what writing `len` bytes from `address` may reach, the MCU
    /// flash of `post` holds what it held in `pre`.
    pub open spec fn kept_outside(pre: &Self, post: &Self, address: int, len: int) -> bool {
        forall|k: int|
            0 <= k < pre.mcu_flash.contents().len() && !M::write_reach(address, len, pre.mcu_flash.origin() + k)
                ==> #[trigger] post.mcu_flash.contents()[k] == pre.mcu_flash.contents()[k]
    }

    /// Address `a` of the MCU flash may change in a boot: copying the staged
    /// or the golden image over the primary bank may reach it.
    pub open spec fn copy_reach(&self, a: int) -> bool {
        let p = self.primary();
        let location = self.mcu_banks@[p].location.value();
        &&& p >= 0
        &&& {
            ||| self.slot_of(BankKind::Staging) is Some && M::write_reach(
                location,
                self.slot_size(self.slot_of(BankKind::Staging)->Some_0),
                a,
            )
            ||| self.slot_of(BankKind::Golden) is Some && M::write_reach(
                location,
                self.slot_size(self.slot_of(BankKind::Golden)->Some_0),
                a,
            )
        }
    }

    /// What a restore from state `pre` leads to.
    pub open spec fn restore_post(pre: &Self, post: &Self, r: BootOutcome) -> bool {
        let p = pre.primary();
        let primary = pre.mcu_banks@[p];
        let offset = primary.location.value() - pre.mcu_flash.origin();
        &&& pre.restore_copies > 0 ==> r == BootOutcome::Fatal(Error::FlashCorrupted)
            && post.mcu_flash.contents() == pre.mcu_flash.contents() && post.restore_copies == pre.restore_copies
        &&& pre.restore_copies == 0 && p < 0 ==> r == BootOutcome::Fatal(Error::BankInvalid)
            && post.mcu_flash.contents() == pre.mcu_flash.contents() && post.restore_copies == 0
        &&& pre.restore_copies == 0 && p >= 0 && pre.slot_of(BankKind::Golden) is None ==> r == BootOutcome::Fatal(
            Error::NoImageToRestoreFrom,
        ) && post.mcu_flash.contents() == pre.mcu_flash.contents() && post.restore_copies == 0
        &&& (pre.restore_copies == 0 && p >= 0 && pre.slot_of(BankKind::Golden) is Some) ==> {
            let golden = pre.slot_of(BankKind::Golden)->Some_0;
            &&& post.restore_copies == 0 ==> r is Fatal && post.mcu_flash.contents() == pre.mcu_flash.contents()
            &&& post.restore_copies == 0 || post.restore_copies == 1
            &&& !pre.slot_readable(golden) ==> post.restore_copies == 0
            &&& pre.slot_readable(golden) && pre.slot_size(golden) > primary.size ==> r == BootOutcome::Fatal(
                Error::ImageTooBig,
            ) && post.restore_copies == 0
            &&& post.restore_copies == 1 ==> {
                &&& Self::kept_outside(pre, post, primary.location.value(), pre.slot_size(golden))
                &&& pre.slot_readable(golden)
                &&& pre.slot_size(golden) <= primary.size
                &&& pre.slot_size(golden) > 0 ==> post.mcu_flash.contents().subrange(
                    offset,
                    offset + pre.slot_size(golden),
                ) == pre.slot_bytes(golden)
                &&& pre.slot_size(golden) > 0 ==> in_storage(
                    pre.mcu_flash.origin(),
                    pre.mcu_flash.contents().len() as int,
                    primary.location.value(),
                    pre.slot_size(golden),
                )
                &&& valid_in(pre.verifier, post.mcu_flash.contents(), post.mcu_flash.origin(), primary) ==> r == pre.hand_off_mcu(p)
                &&& !valid_in(pre.verifier, post.mcu_flash.contents(), post.mcu_flash.origin(), primary) ==> r
                    == BootOutcome::Fatal(Error::FlashCorrupted)
            }
        }
    }

    /// What scanning the banks from state `pre` leads to.
    pub open spec fn scan_post(pre: &Self, post: &Self, r: BootOutcome) -> bool {
        let m = first_valid(pre.verifier, pre.mcu_flash.contents(), pre.mcu_flash.origin(), pre.mcu_banks@, 0);
        let e = first_valid(
            pre.verifier,
            pre.external_flash.contents(),
            pre.external_flash.origin(),
            pre.external_banks@,
            0,
        );
        &&& m >= 0 ==> r == pre.hand_off_mcu(m) && post.mcu_flash.contents() == pre.mcu_flash.contents()
            && post.restore_copies == pre.restore_copies
        &&& m < 0 && e >= 0 ==> r == pre.hand_off_external(e) && post.mcu_flash.contents()
            == pre.mcu_flash.contents() && post.restore_copies == pre.restore_copies
        &&& m < 0 && e < 0 && !pre.recovery_enabled ==> r == BootOutcome::Fatal(Error::NoImageToRestoreFrom)
            && post.mcu_flash.contents() == pre.mcu_flash.contents() && post.restore_copies == pre.restore_copies
        &&& m < 0 && e < 0 && pre.recovery_enabled ==> Self::restore_post(pre, post, r)
    }

    /// The frame of every boot step: what it never changes.
    pub open spec fn step_frame(pre: &Self, post: &Self) -> bool {
        &&& post.ready()
        &&& post.same_setup(pre)
        &&& post.mcu_flash.contents().len() == pre.mcu_flash.contents().len()
        &&& post.external_flash.contents() == pre.external_flash.contents()
        &&& post.update_signal == pre.update_signal
        &&& pre.restore_copies <= 1 ==> post.restore_copies <= 1
        &&& post.restore_copies >= pre.restore_copies
    }

    /// Copies the golden image over the primary bootable bank and checks the
    /// result. A cycle restores at most once: a second request is fatal.
    pub fn restore(&mut self) -> (r: BootOutcome)
        requires
            old(self).ready(),
        ensures
            Self::step_frame(old(self), final(self)),
            Self::restore_post(old(self), final(self), r),
            r matches BootOutcome::HandingOff { index, address } ==> final(self).runnable(index, address),
    {
        if self.restore_copies > 0 {
            return BootOutcome::Fatal(Error::FlashCorrupted);
        }
        let p = match find_bank(&self.mcu_banks, BankKind::Bootable) {
            Some(p) => p,
            None => return BootOutcome::Fatal(Error::BankInvalid),
        };
        let golden = match self.find_slot(BankKind::Golden) {
            Some(golden) => golden,
            None => return BootOutcome::Fatal(Error::NoImageToRestoreFrom),
        };
        let primary = self.mcu_banks[p];
        let image = match self.read_slot(golden) {
            Ok(image) => image,
            Err(e) => return BootOutcome::Fatal(e),
        };
        if image.len() > primary.size {
            return BootOutcome::Fatal(Error::ImageTooBig);
        }
        match self.mcu_flash.write(primary.location, image.as_slice()) {
            Ok(()) => {},
            Err(e) => return BootOutcome::Fatal(e),
        }
        self.restore_copies = 1;
        match verify_bank(&mut self.mcu_flash, &primary, &self.verifier) {
            Ok(_) => {
                let address = primary.location.raw();
                proof {
                    assert(self.mcu_banks@[p as int] == primary);
                }
                BootOutcome::HandingOff { index: primary.index, address }
            },
            Err(_) => BootOutcome::Fatal(Error::FlashCorrupted),
        }
    }


    /// What applying a staged update from state `pre` leads to.
    pub open spec fn update_post(pre: &Self, post: &Self, r: Result<(), Error>) -> bool {
        let p = pre.primary();
        let primary = pre.mcu_banks@[p];
        let offset = primary.location.value() - pre.mcu_flash.origin();
        let staging = pre.slot_of(BankKind::Staging);
        &&& post.restore_copies == pre.restore_copies
        &&& r is Err ==> post.mcu_flash.contents() == pre.mcu_flash.contents()
        &&& (p < 0 || staging is None) ==> r == Err::<(), Error>(Error::BankInvalid)
        &&& (p >= 0 && staging is Some) ==> {
            let slot = staging->Some_0;
            &&& !pre.slot_readable(slot) ==> r is Err
            &&& pre.slot_readable(slot) && pre.slot_size(slot) > primary.size ==> r == Err::<(), Error>(
                Error::ImageTooBig,
            )
            &&& r is Ok ==> {
                &&& Self::kept_outside(pre, post, primary.location.value(), pre.slot_size(slot))
                &&& pre.slot_readable(slot)
                &&& pre.slot_size(slot) <= primary.size
                &&& pre.slot_size(slot) > 0 ==> in_storage(
                    pre.mcu_flash.origin(),
                    pre.mcu_flash.contents().len() as int,
                    primary.location.value(),
                    pre.slot_size(slot),
                ) && post.mcu_flash.contents().subrange(offset, offset + pre.slot_size(slot))
                    == pre.slot_bytes(slot)
            }
        }
    }

    /// What a boot that applies a staged update from state `pre` leads to.
    pub open spec fn boot_after_update(pre: &Self, post: &Self, r: BootOutcome) -> bool {
        let p = pre.primary();
        let staging = pre.slot_of(BankKind::Staging);
        &&& (p < 0 || staging is None) ==> r == BootOutcome::Fatal(Error::BankInvalid)
            && post.mcu_flash.contents() == pre.mcu_flash.contents()
        &&& (p >= 0 && staging is Some && pre.slot_readable(staging->Some_0) && pre.slot_size(staging->Some_0)
            == pre.mcu_banks@[p].size && pre.verifier.verdict(pre.slot_bytes(staging->Some_0)) is Ok) ==> {
            ||| r is Fatal && post.mcu_flash.contents() == pre.mcu_flash.contents()
            ||| r == pre.hand_off_mcu(p) && bank_bytes(
                post.mcu_flash.contents(),
                post.mcu_flash.origin(),
                pre.mcu_banks@[p],
            ) == pre.slot_bytes(staging->Some_0)
        }
    }

    /// What a boot that applies a staged update from state `pre` leads to,
    /// whatever the staged image: a failed copy is fatal with its error and
    /// leaves the MCU flash as it was; after a copy, the banks are scanned
    /// as usual.
    pub open spec fn update_then_scan(pre: &Self, post: &Self, r: BootOutcome) -> bool {
        ||| exists|e: Error|
            r == BootOutcome::Fatal(e) && #[trigger] Self::update_post(pre, post, Err(e))
                && post.mcu_flash.contents() == pre.mcu_flash.contents()
        ||| exists|mid: Self|
            #[trigger] Self::update_post(pre, &mid, Ok(())) && mid.ready() && mid.same_setup(pre)
                && mid.mcu_flash.contents().len() == pre.mcu_flash.contents().len()
                && mid.external_flash.contents() == pre.external_flash.contents() && Self::scan_post(&mid, post, r)
    }

    /// Once a valid staged image of the primary bank's size is in place,
    /// scanning hands off to the primary bank.
    proof fn lemma_valid_update_boots_primary(pre: &Self, updated: &Self, post: &Self, r: BootOutcome)
        requires
            Self::step_frame(pre, updated),
            Self::update_post(pre, updated, Ok(())),
            Self::scan_post(updated, post, r),
            Self::step_frame(updated, post),
        ensures
            Self::boot_after_update(pre, post, r),
    {
        let p = pre.primary();
        let staging = pre.slot_of(BankKind::Staging);
        if p >= 0 && staging is Some && pre.slot_readable(staging->Some_0) && pre.slot_size(staging->Some_0)
            == pre.mcu_banks@[p].size && pre.verifier.verdict(pre.slot_bytes(staging->Some_0)) is Ok {
            lemma_first_of_range(pre.mcu_banks@, BankKind::Bootable, 0);
            let primary = pre.mcu_banks@[p];
            let c = updated.mcu_flash.contents();
            let o = updated.mcu_flash.origin();
            let offset = primary.location.value() - o;
            assert(bank_bytes(c, o, primary) =~= c.subrange(offset, offset + pre.slot_size(staging->Some_0)));
            assert(valid_in(pre.verifier, c, o, primary));
            lemma_first_valid_at_first_bootable(pre.verifier, c, o, pre.mcu_banks@, p, 0);
        }
    }

    /// A restore whose copy of a valid golden image, of the size of the
    /// primary bank, went through hands off to the primary bank.
    pub proof fn lemma_valid_golden_restore_hands_off(pre: &Self, post: &Self, r: BootOutcome)
        requires
            Self::restore_post(pre, post, r),
            pre.restore_copies == 0,
            pre.primary() >= 0,
            pre.slot_of(BankKind::Golden) is Some,
            pre.slot_readable(pre.slot_of(BankKind::Golden)->Some_0),
            pre.slot_size(pre.slot_of(BankKind::Golden)->Some_0) == pre.mcu_banks@[pre.primary()].size,
            pre.verifier.verdict(pre.slot_bytes(pre.slot_of(BankKind::Golden)->Some_0)) is Ok,
            post.mcu_flash.origin() == pre.mcu_flash.origin(),
            post.mcu_flash.contents().len() == pre.mcu_flash.contents().len(),
            post.restore_copies == 1,
        ensures
            r == pre.hand_off_mcu(pre.primary()),
    {
        let golden = pre.slot_of(BankKind::Golden)->Some_0;
        let primary = pre.mcu_banks@[pre.primary()];
        let c = post.mcu_flash.contents();
        let o = post.mcu_flash.origin();
        let offset = primary.location.value() - o;
        assert(bank_bytes(c, o, primary) =~= c.subrange(offset, offset + pre.slot_size(golden)));
        assert(valid_in(pre.verifier, c, o, primary));
    }

    /// A bank of the MCU flash that lies outside what copying an image over
    /// the primary bank may reach, such as a golden bank kept apart from
    /// it, keeps its bytes through a boot.
    pub proof fn lemma_bank_out_of_reach_is_kept(pre: &Self, post: &Self, i: int)
        requires
            0 <= i < pre.mcu_banks@.len(),
            in_storage(
                pre.mcu_flash.origin(),
                pre.mcu_flash.contents().len() as int,
                pre.mcu_banks@[i].location.value(),
                pre.mcu_banks@[i].size as int,
            ),
            forall|a: int|
                pre.mcu_banks@[i].location.value() <= a < pre.mcu_banks@[i].location.value()
                    + pre.mcu_banks@[i].size ==> !#[trigger] pre.copy_reach(a),
            post.mcu_flash.origin() == pre.mcu_flash.origin(),
            post.mcu_flash.contents().len() == pre.mcu_flash.contents().len(),
            forall|k: int|
                0 <= k < pre.mcu_flash.contents().len() && !pre.copy_reach(pre.mcu_flash.origin() + k)
                    ==> #[trigger] post.mcu_flash.contents()[k] == pre.mcu_flash.contents()[k],
        ensures
            bank_bytes(post.mcu_flash.contents(), post.mcu_flash.origin(), pre.mcu_banks@[i]) == bank_bytes(
                pre.mcu_flash.contents(),
                pre.mcu_flash.origin(),
                pre.mcu_banks@[i],
            ),
    {
        let bank = pre.mcu_banks@[i];
        let o = pre.mcu_flash.origin();
        let start = bank.location.value() - o;
        assert forall|j: int| 0 <= j < bank.size implies #[trigger] post.mcu_flash.contents()[start + j]
            == pre.mcu_flash.contents()[start + j] by {
            assert(!pre.copy_reach(bank.location.value() + j));
            assert(o + (start + j) == bank.location.value() + j);
        }
        assert(bank_bytes(post.mcu_flash.contents(), o, bank) =~= bank_bytes(pre.mcu_flash.contents(), o, bank));
    }

    /// A cycle copies the golden image at most once: once a restore copy was
    /// made, a further restore is fatal and leaves the flash alone.
    pub proof fn lemma_restore_at_most_once(pre: &Self, mid: &Self, first: BootOutcome, post: &Self, second: BootOutcome)
        requires
            pre.restore_copies == 0,
            Self::restore_post(pre, mid, first),
            Self::step_frame(pre, mid),
            mid.restore_copies == 1,
            Self::restore_post(mid, post, second),
        ensures
            second == BootOutcome::Fatal(Error::FlashCorrupted),
            post.restore_copies == 1,
            post.mcu_flash.contents() == mid.mcu_flash.contents(),
    {
    }

    /// Copies the staged image over the primary bootable bank.
    pub fn apply_update(&mut self) -> (r: Result<(), Error>)
        requires
            old(self).ready(),
        ensures
            Self::step_frame(old(self), final(self)),
            Self::update_post(old(self), final(self), r),
    {
        let p = match find_bank(&self.mcu_banks, BankKind::Bootable) {
            Some(p) => p,
            None => return Err(Error::BankInvalid),
        };
        let staging = match self.find_slot(BankKind::Staging) {
            Some(staging) => staging,
            None => return Err(Error::BankInvalid),
        };
        let primary = self.mcu_banks[p];
        let image = match self.read_slot(staging) {
            Ok(image) => image,
            Err(e) => return Err(e),
        };
        if image.len() > primary.size {
            return Err(Error::ImageTooBig);
        }
        self.mcu_flash.write(primary.location, image.as_slice())
    }

    /// Scans the bootable banks, internal ones first, and falls back on the
    /// golden image when none holds a valid image.
    pub fn choose_bank(&mut self) -> (r: BootOutcome)
        requires
            old(self).ready(),
        ensures
            Self::step_frame(old(self), final(self)),
            Self::scan_post(old(self), final(self), r),
            r matches BootOutcome::HandingOff { index, address } ==> final(self).runnable(index, address),
    {
        let ghost pre = *self;
        match scan(&mut self.mcu_flash, &self.mcu_banks, &self.verifier) {
            Some(i) => {
                proof {
                    lemma_first_valid_range(pre.verifier, pre.mcu_flash.contents(), pre.mcu_flash.origin(), pre.mcu_banks@, 0);
                }
                let bank = self.mcu_banks[i];
                assert(self.mcu_banks@[i as int] == bank);
                return BootOutcome::HandingOff { index: bank.index, address: bank.location.raw() };
            },
            None => {},
        }
        match scan(&mut self.external_flash, &self.external_banks, &self.verifier) {
            Some(i) => {
                proof {
                    lemma_first_valid_range(
                        pre.verifier,
                        pre.external_flash.contents(),
                        pre.external_flash.origin(),
                        pre.external_banks@,
                        0,
                    );
                }
                let bank = self.external_banks[i];
                assert(self.external_banks@[i as int] == bank);
                return BootOutcome::HandingOff { index: bank.index, address: bank.location.raw() };
            },
            None => {},
        }
        if !self.recovery_enabled {
            return BootOutcome::Fatal(Error::NoImageToRestoreFrom);
        }
        self.restore()
    }

    /// Runs the boot decision of one power cycle: acts on the update signal
    /// and clears it, then picks the bank that control goes to.
    pub fn boot(&mut self) -> (r: BootOutcome)
        requires
            old(self).ready(),
        ensures
            final(self).ready(),
            final(self).same_setup(old(self)),
            final(self).external_flash.contents() == old(self).external_flash.contents(),
            final(self).mcu_flash.contents().len() == old(self).mcu_flash.contents().len(),
            forall|k: int|
                0 <= k < old(self).mcu_flash.contents().len() && !old(self).copy_reach(
                    old(self).mcu_flash.origin() + k,
                ) ==> #[trigger] final(self).mcu_flash.contents()[k] == old(self).mcu_flash.contents()[k],
            old(self).update_signal is None ==> final(self).update_signal is None,
            old(self).update_signal is Some ==> final(self).update_signal is Some
                && final(self).signal() == UpdateSignal::Stable,
            old(self).restore_copies <= 1 ==> final(self).restore_copies <= 1,
            r matches BootOutcome::HandingOff { index, address } ==> final(self).runnable(index, address),
            old(self).signal() == UpdateSignal::Stable ==> Self::scan_post(old(self), final(self), r),
            old(self).signal() == UpdateSignal::RestoreRequested ==> Self::restore_post(
                old(self),
                final(self),
                r,
            ),
            old(self).signal() == UpdateSignal::UpdateRequested ==> Self::boot_after_update(
                old(self),
                final(self),
                r,
            ),
            old(self).signal() == UpdateSignal::UpdateRequested ==> Self::update_then_scan(
                old(self),
                final(self),
                r,
            ),
    {
        let ghost pre = *self;
        let signal = match &self.update_signal {
            Some(store) => store.read(),
            None => UpdateSignal::Stable,
        };
        match &mut self.update_signal {
            Some(store) => store.write(UpdateSignal::Stable),
            None => {},
        }
        let ghost cleared = *self;
        match signal {
            UpdateSignal::RestoreRequested => self.restore(),
            UpdateSignal::UpdateRequested => {
                match self.apply_update() {
                    Ok(()) => {},
                    Err(e) => {
                        proof {
                            assert(Self::update_post(&pre, self, Err(e)));
                        }
                        return BootOutcome::Fatal(e);
                    },
                }
                let ghost updated = *self;
                let r = self.choose_bank();
                proof {
                    Self::lemma_valid_update_boots_primary(&cleared, &updated, self, r);
                    assert(Self::update_post(&pre, &updated, Ok(())));
                    assert(Self::scan_post(&updated, self, r));
                }
                r
            },
            UpdateSignal::Stable => self.choose_bank(),
        }
    }

    /// Finds the first bank of `kind`, in the MCU catalog first.
    fn find_slot(&self, kind: BankKind) -> (r: Option<Slot>)
        ensures
            r == self.slot_of(kind),
            r matches Some(Slot::Mcu(i)) ==> i < self.mcu_banks@.len(),
            r matches Some(Slot::External(i)) ==> i < self.external_banks@.len(),
    {
        match find_bank(&self.mcu_banks, kind) {
            Some(i) => Some(Slot::Mcu(i)),
            None => match find_bank(&self.external_banks, kind) {
                Some(i) => Some(Slot::External(i)),
                None => None,
            },
        }
    }
}

} // verus!
