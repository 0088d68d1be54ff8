//! Simulated peripherals: they hold their state in memory and follow the
//! contracts of the peripheral traits, so that the engines can run off target.

use crate::error::Error;
use crate::flash::ReadWrite;
use crate::gpio::OutputPin;
use crate::mcu_flash::{erase_span, program_effect, ControlWrite, FlashController, MEMORY_SIZE};
use crate::micron;
use crate::sector_map::{lemma_main_sector_bounds, memory_map, spec_memory_map, FLASH_START};
use crate::serial::Write;
use crate::spi::FullDuplex;
use crate::update_signal::{UpdateSignal, UpdateSignalStore};
use nb::Error as WouldBlockOr;
use std::collections::VecDeque;
use vstd::bytes::{spec_u32_to_le_bytes, u32_to_le_bytes};
use vstd::prelude::*;

verus! {

/// Internal flash controller kept in memory. After an erase it reports busy
/// for a fixed number of polls.
pub struct SimulatedFlash {
    memory: Vec<u8>,
    busy: u32,
    erase_polls: u32,
    writes: Ghost<Seq<ControlWrite>>,
}

impl SimulatedFlash {
    /// A fully erased flash that stays busy for `erase_polls` polls after
    /// each sector erase.
    pub fn new(erase_polls: u32) -> (r: Self)
        ensures
            r.memory() == Seq::new(MEMORY_SIZE as nat, |k: int| 0xFFu8),
            r.busy_polls() == 0,
    {
        let mut memory: Vec<u8> = Vec::new();
        let mut i: usize = 0;
        while i < MEMORY_SIZE
            invariant
                0 <= i <= MEMORY_SIZE,
                memory@ == Seq::new(i as nat, |k: int| 0xFFu8),
            decreases MEMORY_SIZE - i,
        {
            memory.push(0xFF);
            i += 1;
            assert(memory@ =~= Seq::new(i as nat, |k: int| 0xFFu8));
        }
        SimulatedFlash { memory, busy: 0, erase_polls, writes: Ghost(Seq::empty()) }
    }

    /// Makes the controller report busy for the next `polls` polls.
    pub fn set_busy(&mut self, polls: u32)
        ensures
            final(self).memory() == old(self).memory(),
            final(self).busy_polls() == polls,
    {
        self.busy = polls;
    }
}

impl FlashController for SimulatedFlash {
    closed spec fn memory(&self) -> Seq<u8> {
        self.memory@
    }

    closed spec fn busy_polls(&self) -> nat {
        self.busy as nat
    }

    closed spec fn control_writes(&self) -> Seq<ControlWrite> {
        self.writes@
    }

    fn is_busy(&mut self) -> (r: bool) {
        if self.busy > 0 {
            self.busy = self.busy - 1;
            true
        } else {
            false
        }
    }

    fn write_key(&mut self, key: u32) {
        proof {
            self.writes@ = self.writes@.push(ControlWrite::Key(key));
        }
    }

    fn select_word_parallelism(&mut self) {
        proof {
            self.writes@ = self.writes@.push(ControlWrite::WordParallelism);
        }
    }

    fn lock(&mut self) {
        proof {
            self.writes@ = self.writes@.push(ControlWrite::Lock);
        }
    }

    fn enable_programming(&mut self) {
        proof {
            self.writes@ = self.writes@.push(ControlWrite::EnableProgramming);
        }
    }

    fn start_sector_erase(&mut self, number: u8) {
        proof {
            lemma_main_sector_bounds();
        }
        let map = memory_map();
        let sector = map.sectors[number as usize];
        let lo = (sector.start.0 - FLASH_START) as usize;
        let hi = (sector.end.0 - FLASH_START) as usize;
        let ghost m = self.memory@;
        assert(spec_memory_map()[number as int] == sector);
        let mut k: usize = lo;
        while k < hi
            invariant
                lo <= k <= hi,
                hi <= m.len(),
                self.writes == old(self).writes,
                self.memory@ == erase_span(m, lo as int, k as int),
            decreases hi - k,
        {
            self.memory.set(k, 0xFF);
            k += 1;
            assert(self.memory@ =~= erase_span(m, lo as int, k as int));
        }
        self.busy = self.erase_polls;
        proof {
            self.writes@ = self.writes@.push(ControlWrite::SectorErase(number));
        }
    }

    fn program_word(&mut self, address: u32, word: u32) {
        let bytes = u32_to_le_bytes(word);
        let base = (address - FLASH_START) as usize;
        let ghost m = self.memory@;
        let ghost busy = self.busy;
        let mut j: usize = 0;
        while j < 4
            invariant
                0 <= j <= 4,
                self.busy == busy,
                self.writes == old(self).writes,
                m.len() == MEMORY_SIZE,
                base + 4 <= m.len(),
                bytes@ == spec_u32_to_le_bytes(word),
                bytes@.len() == 4,
                self.memory@.len() == m.len(),
                forall|k: int|
                    0 <= k < m.len() ==> #[trigger] self.memory@[k] == if base <= k < base + j {
                        m[k] & bytes@[k - base]
                    } else {
                        m[k]
                    },
            decreases 4 - j,
        {
            let value = self.memory[base + j] & bytes[j];
            self.memory.set(base + j, value);
            j += 1;
        }
        assert(self.memory@ =~= program_effect(m, base as int, word));
        proof {
            self.writes@ = self.writes@.push(ControlWrite::Program(address, word));
        }
    }

    fn read_byte(&self, address: u32) -> (r: u8) {
        self.memory[(address - FLASH_START) as usize]
    }
}

/// SPI bus that records what is sent and answers from a queue of words.
pub struct MockSpi {
    /// Words sent, dummy words left out.
    pub sent: VecDeque<u8>,
    /// Words the bus will answer with, in order.
    pub to_receive: VecDeque<u8>,
    /// A faulty bus fails every transfer.
    pub faulty: bool,
    transfers: Vec<Option<u8>>,
    readings: Vec<u8>,
    fault_count: Ghost<nat>,
}

impl MockSpi {
    pub fn new() -> (r: Self)
        ensures
            r.sent() == Seq::<Option<u8>>::empty(),
            r.received() == Seq::<u8>::empty(),
            r.faults() == 0,
    {
        MockSpi {
            sent: VecDeque::new(),
            to_receive: VecDeque::new(),
            faulty: false,
            transfers: Vec::new(),
            readings: Vec::new(),
            fault_count: Ghost(0),
        }
    }
}

impl FullDuplex<u8> for MockSpi {
    type Error = ();

    closed spec fn sent(&self) -> Seq<Option<u8>> {
        self.transfers@
    }

    closed spec fn received(&self) -> Seq<u8> {
        self.readings@
    }

    closed spec fn faults(&self) -> nat {
        self.fault_count@
    }

    fn transmit(&mut self, word: Option<u8>) -> (r: Result<(), WouldBlockOr<()>>) {
        if self.faulty {
            proof {
                self.fault_count@ = self.fault_count@ + 1;
            }
            return Err(WouldBlockOr::Other(()));
        }
        if let Some(byte) = word {
            self.sent.push_back(byte);
        }
        self.transfers.push(word);
        Ok(())
    }

    /// Answers with the next queued word; with none left the bus is not ready.
    fn receive(&mut self) -> (r: Result<u8, WouldBlockOr<()>>) {
        match self.to_receive.pop_front() {
            Some(word) => {
                self.readings.push(word);
                Ok(word)
            },
            None => Err(WouldBlockOr::WouldBlock),
        }
    }
}

/// Output pin that records the levels it is set to.
pub struct MockPin {
    pub changes: Vec<bool>,
}

impl Default for MockPin {
    fn default() -> (r: Self)
        ensures
            r.changes@ == Seq::<bool>::empty(),
    {
        MockPin { changes: Vec::new() }
    }
}

impl OutputPin for MockPin {
    closed spec fn changes(&self) -> Seq<bool> {
        self.changes@
    }

    fn set_low(&mut self) {
        self.changes.push(false);
    }

    fn set_high(&mut self) {
        self.changes.push(true);
    }
}

/// External flash kept in memory, addressed from zero.
pub struct RamFlash {
    memory: Vec<u8>,
}

impl RamFlash {
    /// An erased flash of `size` bytes.
    pub fn new(size: usize) -> (r: Self)
        ensures
            r.contents() == Seq::new(size as nat, |k: int| 0xFFu8),
            r.ready(),
    {
        let mut memory: Vec<u8> = Vec::new();
        let mut i: usize = 0;
        while i < size
            invariant
                0 <= i <= size,
                memory@ == Seq::new(i as nat, |k: int| 0xFFu8),
            decreases size - i,
        {
            memory.push(0xFF);
            i += 1;
            assert(memory@ =~= Seq::new(i as nat, |k: int| 0xFFu8));
        }
        RamFlash { memory }
    }
}

impl ReadWrite for RamFlash {
    type Address = micron::Address;

    closed spec fn contents(&self) -> Seq<u8> {
        self.memory@
    }

    open spec fn origin(&self) -> int {
        0
    }

    closed spec fn ready(&self) -> bool {
        true
    }

    open spec fn write_reach(address: int, len: int, a: int) -> bool {
        address <= a < address + len
    }

    fn read(&mut self, address: micron::Address, bytes: &mut [u8]) -> (r: Result<(), Error>) {
        let start = address.0 as usize;
        if start > self.memory.len() || bytes.len() > self.memory.len() - start {
            return Err(Error::DeviceError("[Ram Flash] Address out of range"));
        }
        let len = bytes.len();
        let size = self.memory.len();
        let mut i: usize = 0;
        while i < len
            invariant
                0 <= i <= len,
                len == bytes@.len(),
                size == self.memory@.len(),
                start + len <= size,
                start == address.0,
                forall|k: int| 0 <= k < i ==> bytes@[k] == self.memory@[start + k],
            decreases len - i,
        {
            bytes[i] = self.memory[start + i];
            i += 1;
        }
        assert(bytes@ =~= self.memory@.subrange(start as int, start + len));
        Ok(())
    }

    fn write(&mut self, address: micron::Address, bytes: &[u8]) -> (r: Result<(), Error>) {
        let start = address.0 as usize;
        if start > self.memory.len() || bytes.len() > self.memory.len() - start {
            return Err(Error::DeviceError("[Ram Flash] Address out of range"));
        }
        let len = bytes.len();
        let size = self.memory.len();
        let ghost m = self.memory@;
        let mut i: usize = 0;
        while i < len
            invariant
                0 <= i <= len,
                len == bytes@.len(),
                size == m.len(),
                start + len <= size,
                self.memory@.len() == m.len(),
                start == address.0,
                forall|k: int| 0 <= k < i ==> self.memory@[start + k] == bytes@[k],
                forall|k: int| 0 <= k < m.len() && !(start <= k < start + i) ==> self.memory@[k] == m[k],
            decreases len - i,
        {
            self.memory.set(start + i, bytes[i]);
            i += 1;
        }
        assert(self.memory@.subrange(start as int, start + len) =~= bytes@);
        Ok(())
    }
}

/// Update signal held in a retained register.
pub struct RetainedSignal {
    pub signal: UpdateSignal,
}

impl UpdateSignalStore for RetainedSignal {
    closed spec fn stored(&self) -> UpdateSignal {
        self.signal
    }

    fn read(&self) -> (r: UpdateSignal) {
        self.signal
    }

    fn write(&mut self, signal: UpdateSignal) {
        self.signal = signal;
    }
}

/// Diagnostic channel that keeps the characters written to it.
pub struct TextSink {
    pub chars: Vec<char>,
}

impl TextSink {
    pub fn new() -> (r: Self)
        ensures
            r.written() == Seq::<char>::empty(),
    {
        TextSink { chars: Vec::new() }
    }
}

impl Write for TextSink {
    closed spec fn written(&self) -> Seq<char> {
        self.chars@
    }

    fn write_str(&mut self, text: &str) {
        broadcast use vstd::string::axiom_spec_iter;
        let ghost start = self.chars@;
        for c in it: text.chars()
            invariant
                it.seq() == text@,
                self.chars@ == start + text@.subrange(0, it.index() as int),
        {
            self.chars.push(c);
            assert(self.chars@ =~= start + text@.subrange(0, it.index() + 1));
        }
        assert(text@.subrange(0, text@.len() as int) =~= text@);
    }
}

} // verus!
