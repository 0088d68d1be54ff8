//! Driver for the Micron N25Q128A external flash, driven over SPI with a
//! chip select line.

use crate::gpio::OutputPin;
use crate::spi::FullDuplex;
use nb::Error as WouldBlockOr;
use vstd::prelude::*;

verus! {

/// Identifier that the chip reports for its manufacturer.
pub const MANUFACTURER_ID: u8 = 0x20;

/// First address of the chip's memory.
pub const MEMORY_START: u32 = 0x0000_0000;

/// End (exclusive) of the chip's memory: 128 Mbit.
pub const MEMORY_END: u32 = 0x0100_0000;

/// Bytes that one page program may write, within one page.
pub const PAGE_SIZE: u32 = 256;

/// Bytes of the smallest erasable region.
pub const SUBSECTOR_SIZE: u32 = 4096;

/// Polls that each bus transfer may take before the driver gives up.
pub const DEFAULT_TIMEOUT_POLLS: u32 = 10_000;

/// Address into the Micron chip memory map.
#[derive(Copy, Clone, Debug, PartialEq, Eq, Structural)]
pub struct Address(pub u32);

#[derive(Copy, Clone, Debug, PartialEq, Eq, Structural)]
pub struct Sector(pub Address);

#[derive(Copy, Clone, Debug, PartialEq, Eq, Structural)]
pub struct Page(pub Address);

#[derive(Copy, Clone, Debug, PartialEq, Eq, Structural)]
pub struct Word(pub Address);

pub struct MicronN25q128a<SPI: FullDuplex<u8>, CS: OutputPin> {
    pub spi: SPI,
    pub chip_select: CS,
    pub timeout: u32,
    /// Everything the driver did on the bus and the chip select line.
    pub events: Ghost<Seq<BusEvent>>,
}

#[derive(Copy, Clone, Debug, PartialEq, Eq, Structural)]
pub enum Error {
    TimeOut,
    SpiError,
    WrongManufacturerId,
    MisalignedAccess,
    AddressOutOfRange,
}

#[derive(Copy, Clone, Debug, PartialEq, Eq, Structural)]
pub enum Command {
    WriteDisable,
    ReadStatus,
    WriteEnable,
    ReadId,
    BulkErase,
    Read,
    PageProgram,
    SubsectorErase,
}

pub open spec fn spec_opcode(command: Command) -> u8 {
    match command {
        Command::WriteDisable => 0x04,
        Command::ReadStatus => 0x05,
        Command::WriteEnable => 0x06,
        Command::ReadId => 0x9E,
        Command::BulkErase => 0xC7,
        Command::Read => 0x03,
        Command::PageProgram => 0x02,
        Command::SubsectorErase => 0x20,
    }
}

/// The transmissions of one command: its opcode, its arguments, then one
/// dummy word for each response byte.
pub open spec fn command_frame(command: Command, arguments: Seq<u8>, response_len: nat) -> Seq<Option<u8>> {
    seq![Some(spec_opcode(command))] + arguments.map_values(|b: u8| Some(b)) + Seq::new(
        response_len,
        |i: int| None::<u8>,
    )
}

/// A memory address as the chip reads it: three bytes, most significant
/// first.
pub open spec fn address_bytes(address: u32) -> Seq<u8> {
    seq![((address >> 16u32) & 0xFFu32) as u8, ((address >> 8u32) & 0xFFu32) as u8, (address & 0xFFu32) as u8]
}

/// The transmissions of a status read.
pub open spec fn status_frame() -> Seq<Option<u8>> {
    command_frame(Command::ReadStatus, seq![], 1)
}

/// The transmissions of the identity check.
pub open spec fn read_id_frame() -> Seq<Option<u8>> {
    command_frame(Command::ReadId, seq![], 1)
}

/// What the driver did on the bus and the chip select line, in order.
#[derive(Copy, Clone, Debug, PartialEq, Eq, Structural)]
pub enum BusEvent {
    /// Chip select driven low.
    Select,
    /// Chip select driven high.
    Release,
    /// A word transmitted (`None` for a dummy word).
    Sent(Option<u8>),
    /// A word received.
    Received(u8),
    /// The bus reported a failed transfer.
    Fault,
    /// The bus was not ready within the timeout.
    Stall,
}

/// The first `k` events of exchanging `frame` word by word: each
/// transmitted word is followed by the word received with it.
pub open spec fn exchange(frame: Seq<Option<u8>>, received: Seq<u8>, k: int) -> Seq<BusEvent> {
    Seq::new(
        k as nat,
        |i: int|
            if i % 2 == 0 {
                BusEvent::Sent(frame[i / 2])
            } else {
                BusEvent::Received(received[i / 2])
            },
    )
}

/// The event that ends a command on a failed transfer.
pub open spec fn failure_event(error: Error) -> BusEvent {
    if error == Error::SpiError {
        BusEvent::Fault
    } else {
        BusEvent::Stall
    }
}

/// The status byte answering a status read whose received words start at
/// `start` shows a write in progress.
pub open spec fn write_in_progress(received: Seq<u8>, start: int) -> bool {
    received[start + 1] & 1u8 != 0
}

/// An operation ended on a failed transfer: its last event is the failure,
/// and `SpiError` comes exactly from a failure that the bus reported.
pub open spec fn failed_on_bus(
    events_before: Seq<BusEvent>,
    events_after: Seq<BusEvent>,
    faults_before: nat,
    faults_after: nat,
    error: Error,
) -> bool {
    &&& events_before.len() < events_after.len()
    &&& events_after.last() == failure_event(error)
    &&& error == Error::SpiError ==> faults_after == faults_before + 1
    &&& error == Error::TimeOut ==> faults_after == faults_before
}

/// `now` extends `before` by a leading part of `frame`.
pub open spec fn partial_frame(before: Seq<Option<u8>>, now: Seq<Option<u8>>, frame: Seq<Option<u8>>) -> bool {
    &&& before.len() <= now.len() <= before.len() + frame.len()
    &&& now == (before + frame).subrange(0, now.len() as int)
}

/// The identity check transmits the identification opcode and dummy words
/// only: no command that enables writes, erases or programs the chip.
pub proof fn lemma_identity_check_sends_no_write(before: Seq<Option<u8>>, now: Seq<Option<u8>>)
    requires
        partial_frame(before, now, read_id_frame()),
    ensures
        forall|i: int|
            before.len() <= i < now.len() ==> #[trigger] now[i] == Some(spec_opcode(Command::ReadId)) || now[i]
                == None::<u8>,
{
    let frame = read_id_frame();
    assert(frame =~= seq![Some(spec_opcode(Command::ReadId)), None::<u8>]);
    assert forall|i: int| before.len() <= i < now.len() implies #[trigger] now[i] == Some(
        spec_opcode(Command::ReadId),
    ) || now[i] == None::<u8> by {
        assert(now[i] == (before + frame)[i]);
    }
}

impl Command {
    pub fn opcode(self) -> (r: u8)
        ensures
            r == spec_opcode(self),
    {
        match self {
            Command::WriteDisable => 0x04,
            Command::ReadStatus => 0x05,
            Command::WriteEnable => 0x06,
            Command::ReadId => 0x9E,
            Command::BulkErase => 0xC7,
            Command::Read => 0x03,
            Command::PageProgram => 0x02,
            Command::SubsectorErase => 0x20,
        }
    }

    /// The command changes the contents of the memory.
    pub fn writes_data(&self) -> (r: bool)
        ensures
            r == (*self == Command::BulkErase || *self == Command::PageProgram || *self
                == Command::SubsectorErase),
    {
        match self {
            Command::BulkErase | Command::PageProgram | Command::SubsectorErase => true,
            _ => false,
        }
    }
}

/// Status register of the chip.
#[derive(Copy, Clone, Debug, PartialEq, Eq, Structural)]
pub struct Status {
    pub write_enable_latch: bool,
    pub write_in_progress: bool,
}

impl<SPI: FullDuplex<u8>, CS: OutputPin> MicronN25q128a<SPI, CS> {
    /// Frame of the driver between calls: the transfers and the chip select
    /// levels it has not touched stay as they are.
    pub open spec fn same_devices(&self, other: &Self) -> bool {
        &&& self.spi.sent() == other.spi.sent()
        &&& self.spi.received() == other.spi.received()
        &&& self.spi.faults() == other.spi.faults()
        &&& self.chip_select.changes() == other.chip_select.changes()
    }

    /// Drives chip select low, which starts a command.
    fn select(&mut self)
        ensures
            final(self).chip_select.changes() == old(self).chip_select.changes().push(false),
            final(self).events@ == old(self).events@.push(BusEvent::Select),
            final(self).spi == old(self).spi,
            final(self).timeout == old(self).timeout,
    {
        self.chip_select.set_low();
        proof {
            self.events@ = self.events@.push(BusEvent::Select);
        }
    }

    /// Drives chip select high, which ends a command.
    fn release(&mut self)
        ensures
            final(self).chip_select.changes() == old(self).chip_select.changes().push(true),
            final(self).events@ == old(self).events@.push(BusEvent::Release),
            final(self).spi == old(self).spi,
            final(self).timeout == old(self).timeout,
    {
        self.chip_select.set_high();
        proof {
            self.events@ = self.events@.push(BusEvent::Release);
        }
    }

    /// Transmits one word, polling the bus at most `timeout` times. A
    /// failure reported by the bus is `SpiError`; a bus never ready is
    /// `TimeOut`.
    fn transmit(&mut self, word: Option<u8>) -> (r: Result<(), Error>)
        ensures
            r is Ok ==> final(self).spi.sent() == old(self).spi.sent().push(word) && final(self).events@ == old(
                self,
            ).events@.push(BusEvent::Sent(word)) && final(self).spi.faults() == old(self).spi.faults(),
            r is Err ==> final(self).spi.sent() == old(self).spi.sent(),
            r == Err::<(), Error>(Error::SpiError) ==> final(self).spi.faults() == old(self).spi.faults() + 1
                && final(self).events@ == old(self).events@.push(BusEvent::Fault),
            r == Err::<(), Error>(Error::TimeOut) ==> final(self).spi.faults() == old(self).spi.faults()
                && final(self).events@ == old(self).events@.push(BusEvent::Stall),
            r matches Err(e) ==> e is TimeOut || e is SpiError,
            final(self).spi.received() == old(self).spi.received(),
            final(self).chip_select == old(self).chip_select,
            final(self).timeout == old(self).timeout,
    {
        let mut polls: u32 = 0;
        while polls < self.timeout
            invariant
                self.spi.sent() == old(self).spi.sent(),
                self.spi.received() == old(self).spi.received(),
                self.spi.faults() == old(self).spi.faults(),
                self.events == old(self).events,
                self.chip_select == old(self).chip_select,
                self.timeout == old(self).timeout,
            decreases self.timeout - polls,
        {
            match self.spi.transmit(word) {
                Ok(()) => {
                    proof {
                        self.events@ = self.events@.push(BusEvent::Sent(word));
                    }
                    return Ok(());
                },
                Err(WouldBlockOr::WouldBlock) => {},
                Err(WouldBlockOr::Other(_)) => {
                    proof {
                        self.events@ = self.events@.push(BusEvent::Fault);
                    }
                    return Err(Error::SpiError);
                },
            }
            polls += 1;
        }
        proof {
            self.events@ = self.events@.push(BusEvent::Stall);
        }
        Err(Error::TimeOut)
    }

    /// Receives one word, polling the bus at most `timeout` times. A
    /// failure reported by the bus is `SpiError`; a bus never ready is
    /// `TimeOut`.
    fn receive(&mut self) -> (r: Result<u8, Error>)
        ensures
            r matches Ok(w) ==> final(self).spi.received() == old(self).spi.received().push(w)
                && final(self).events@ == old(self).events@.push(BusEvent::Received(w))
                && final(self).spi.faults() == old(self).spi.faults(),
            r is Err ==> final(self).spi.received() == old(self).spi.received(),
            r == Err::<u8, Error>(Error::SpiError) ==> final(self).spi.faults() == old(self).spi.faults() + 1
                && final(self).events@ == old(self).events@.push(BusEvent::Fault),
            r == Err::<u8, Error>(Error::TimeOut) ==> final(self).spi.faults() == old(self).spi.faults()
                && final(self).events@ == old(self).events@.push(BusEvent::Stall),
            r matches Err(e) ==> e is TimeOut || e is SpiError,
            final(self).spi.sent() == old(self).spi.sent(),
            final(self).chip_select == old(self).chip_select,
            final(self).timeout == old(self).timeout,
    {
        let mut polls: u32 = 0;
        while polls < self.timeout
            invariant
                self.spi.sent() == old(self).spi.sent(),
                self.spi.received() == old(self).spi.received(),
                self.spi.faults() == old(self).spi.faults(),
                self.events == old(self).events,
                self.chip_select == old(self).chip_select,
                self.timeout == old(self).timeout,
            decreases self.timeout - polls,
        {
            match self.spi.receive() {
                Ok(word) => {
                    proof {
                        self.events@ = self.events@.push(BusEvent::Received(word));
                    }
                    return Ok(word);
                },
                Err(WouldBlockOr::WouldBlock) => {},
                Err(WouldBlockOr::Other(_)) => {
                    proof {
                        self.events@ = self.events@.push(BusEvent::Fault);
                    }
                    return Err(Error::SpiError);
                },
            }
            polls += 1;
        }
        proof {
            self.events@ = self.events@.push(BusEvent::Stall);
        }
        Err(Error::TimeOut)
    }

    /// Builds the transmissions of `command`.
    fn frame_of(command: Command, arguments: &Vec<u8>, response_len: usize) -> (r: Vec<Option<u8>>)
        requires
            1 + arguments@.len() + response_len <= usize::MAX,
        ensures
            r@ == command_frame(command, arguments@, response_len as nat),
    {
        let mut frame: Vec<Option<u8>> = Vec::new();
        frame.push(Some(command.opcode()));
        let mut i: usize = 0;
        while i < arguments.len()
            invariant
                0 <= i <= arguments@.len(),
                frame@ == seq![Some(spec_opcode(command))] + arguments@.subrange(0, i as int).map_values(
                    |b: u8| Some(b),
                ),
            decreases arguments@.len() - i,
        {
            frame.push(Some(arguments[i]));
            i += 1;
            assert(frame@ =~= seq![Some(spec_opcode(command))] + arguments@.subrange(0, i as int).map_values(
                |b: u8| Some(b),
            ));
        }
        assert(arguments@.subrange(0, arguments@.len() as int) =~= arguments@);
        let mut j: usize = 0;
        while j < response_len
            invariant
                0 <= j <= response_len,
                frame@ == seq![Some(spec_opcode(command))] + arguments@.map_values(|b: u8| Some(b)) + Seq::new(
                    j as nat,
                    |i: int| None::<u8>,
                ),
            decreases response_len - j,
        {
            frame.push(None);
            j += 1;
            assert(frame@ =~= seq![Some(spec_opcode(command))] + arguments@.map_values(|b: u8| Some(b))
                + Seq::new(j as nat, |i: int| None::<u8>));
        }
        frame
    }

    /// Executes one command: selects the chip, exchanges the frame word by
    /// word (opcode, arguments, one dummy word per response byte), then
    /// releases the chip. The first failing transfer ends the command, with
    /// the chip still selected.
    fn execute_command(&mut self, command: Command, arguments: &Vec<u8>, response: &mut Vec<u8>) -> (r: Result<
        (),
        Error,
    >)
        requires
            arguments@.len() + old(response)@.len() < 0x0200_0000,
        ensures
            final(response)@.len() == old(response)@.len(),
            final(self).timeout == old(self).timeout,
            partial_frame(
                old(self).spi.sent(),
                final(self).spi.sent(),
                command_frame(command, arguments@, old(response)@.len()),
            ),
            old(self).spi.received().len() <= final(self).spi.received().len(),
            final(self).spi.received().subrange(0, old(self).spi.received().len() as int) == old(
                self,
            ).spi.received(),
            r matches Err(e) ==> e is TimeOut || e is SpiError,
            r is Err ==> final(self).spi.received().len() < old(self).spi.received().len() + 1
                + arguments@.len() + old(response)@.len(),
            r matches Err(e) ==> failed_on_bus(
                old(self).events@,
                final(self).events@,
                old(self).spi.faults(),
                final(self).spi.faults(),
                e,
            ),
            r is Ok ==> {
                &&& final(self).spi.sent() == old(self).spi.sent() + command_frame(
                    command,
                    arguments@,
                    old(response)@.len(),
                )
                &&& final(self).spi.received().len() == old(self).spi.received().len() + 1
                    + arguments@.len() + old(response)@.len()
                &&& final(response)@ == final(self).spi.received().subrange(
                    final(self).spi.received().len() - old(response)@.len(),
                    final(self).spi.received().len() as int,
                )
                &&& final(self).chip_select.changes() == old(self).chip_select.changes().push(
                    false,
                ).push(true)
                &&& final(self).spi.faults() == old(self).spi.faults()
                &&& final(self).events@ == old(self).events@ + seq![BusEvent::Select] + exchange(
                    command_frame(command, arguments@, old(response)@.len()),
                    final(self).spi.received().subrange(
                        old(self).spi.received().len() as int,
                        final(self).spi.received().len() as int,
                    ),
                    (2 * (1 + arguments@.len() + old(response)@.len())) as int,
                ) + seq![BusEvent::Release]
            },
            r is Err ==> {
                let k = final(self).events@.len() - old(self).events@.len() - 2;
                &&& 0 <= k < 2 * (1 + arguments@.len() + old(response)@.len())
                &&& final(self).events@ == old(self).events@ + seq![BusEvent::Select] + exchange(
                    command_frame(command, arguments@, old(response)@.len()),
                    final(self).spi.received().subrange(
                        old(self).spi.received().len() as int,
                        final(self).spi.received().len() as int,
                    ),
                    k,
                ) + seq![failure_event(r->Err_0)]
                &&& final(self).spi.received().len() == old(self).spi.received().len() + k / 2
                &&& final(self).chip_select.changes() == old(self).chip_select.changes().push(false)
                &&& r == Err::<(), Error>(Error::SpiError) <==> final(self).spi.faults() == old(
                    self,
                ).spi.faults() + 1
                &&& r == Err::<(), Error>(Error::TimeOut) ==> final(self).spi.faults() == old(
                    self,
                ).spi.faults()
            },
    {
        let ghost sent0 = self.spi.sent();
        let ghost received0 = self.spi.received();
        let ghost r0 = received0.len() as int;
        let ghost events0 = self.events@;
        let ghost faults0 = self.spi.faults();
        let ghost changes0 = self.chip_select.changes();
        let ghost response_len = response@.len();
        let ghost timeout0 = self.timeout;
        let nargs = arguments.len();
        let nresponse = response.len();
        let frame = Self::frame_of(command, arguments, nresponse);
        let ghost spec_frame = command_frame(command, arguments@, response_len);
        let total = frame.len();
        assert(total == 1 + nargs + nresponse);
        self.select();
        assert(self.events@ =~= events0 + seq![BusEvent::Select] + exchange(
            spec_frame,
            self.spi.received().subrange(r0, r0),
            0,
        ));
        let mut i: usize = 0;
        while i < total
            invariant
                0 <= i <= total,
                total == frame@.len(),
                frame@ == spec_frame,
                spec_frame == command_frame(command, arguments@, response_len),
                total == 1 + nargs + response_len,
                nargs == arguments@.len(),
                nresponse == response_len,
                response@.len() == response_len,
                sent0 == old(self).spi.sent(),
                received0 == old(self).spi.received(),
                r0 == received0.len(),
                events0 == old(self).events@,
                faults0 == old(self).spi.faults(),
                changes0 == old(self).chip_select.changes(),
                response_len == old(response)@.len(),
                timeout0 == old(self).timeout,
                self.timeout == timeout0,
                self.spi.sent() == (sent0 + spec_frame).subrange(0, sent0.len() + i),
                self.spi.received().len() == r0 + i,
                self.spi.received().subrange(0, r0) == received0,
                self.spi.faults() == faults0,
                self.chip_select.changes() == changes0.push(false),
                self.events@ == events0 + seq![BusEvent::Select] + exchange(
                    spec_frame,
                    self.spi.received().subrange(r0, r0 + i),
                    2 * i as int,
                ),
                forall|k: int|
                    0 <= k < response_len && 1 + nargs + k < i ==> response@[k] == self.spi.received()[r0 + 1
                        + nargs + k],
            decreases total - i,
        {
            let ghost rx = self.spi.received().subrange(r0, r0 + i);
            let ghost before = self.events@;
            match self.transmit(frame[i]) {
                Ok(()) => {},
                Err(e) => {
                    proof {
                        let fin = self.spi.received().subrange(r0, self.spi.received().len() as int);
                        assert(fin =~= rx);
                        assert(self.events@ =~= events0 + seq![BusEvent::Select] + exchange(spec_frame, fin, 2 * i)
                            + seq![failure_event(e)]);
                        assert(self.spi.sent() =~= (sent0 + spec_frame).subrange(0, self.spi.sent().len() as int));
                    }
                    return Err(e);
                },
            }
            proof {
                assert(exchange(spec_frame, rx, 2 * i + 1) =~= exchange(spec_frame, rx, 2 * i).push(
                    BusEvent::Sent(spec_frame[i as int]),
                ));
                assert(self.spi.sent() =~= (sent0 + spec_frame).subrange(0, sent0.len() + i + 1));
            }
            let word = match self.receive() {
                Ok(word) => word,
                Err(e) => {
                    proof {
                        let fin = self.spi.received().subrange(r0, self.spi.received().len() as int);
                        assert(fin =~= rx);
                        assert(exchange(spec_frame, fin, 2 * i + 1) =~= exchange(spec_frame, rx, 2 * i + 1));
                        assert(self.events@ =~= events0 + seq![BusEvent::Select] + exchange(
                            spec_frame,
                            fin,
                            2 * i + 1,
                        ) + seq![failure_event(e)]);
                        assert(self.spi.sent() =~= (sent0 + spec_frame).subrange(0, self.spi.sent().len() as int));
                    }
                    return Err(e);
                },
            };
            proof {
                let rx2 = self.spi.received().subrange(r0, r0 + i + 1);
                assert(rx2 =~= rx.push(word));
                assert(exchange(spec_frame, rx2, 2 * i + 2) =~= exchange(spec_frame, rx, 2 * i + 1).push(
                    BusEvent::Received(word),
                ));
                assert(self.spi.received().subrange(0, r0) =~= received0);
            }
            if i >= 1 + nargs {
                response.set(i - 1 - nargs, word);
            }
            i += 1;
        }
        let ghost rx = self.spi.received().subrange(r0, r0 + total);
        self.release();
        assert(self.events@ =~= events0 + seq![BusEvent::Select] + exchange(spec_frame, rx, 2 * total as int)
            + seq![BusEvent::Release]);
        assert(self.spi.sent() =~= sent0 + spec_frame);
        assert(response@ =~= self.spi.received().subrange(
            self.spi.received().len() - response_len,
            self.spi.received().len() as int,
        ));
        Ok(())
    }

    /// Reads the manufacturer identifier and checks it against the expected one.
    pub fn verify_id(&mut self) -> (r: Result<(), Error>)
        ensures
            final(self).timeout == old(self).timeout,
            partial_frame(old(self).spi.sent(), final(self).spi.sent(), read_id_frame()),
            final(self).spi.received().subrange(0, old(self).spi.received().len() as int) == old(
                self,
            ).spi.received(),
            r is Ok || r == Err::<(), Error>(Error::WrongManufacturerId) ==> {
                &&& final(self).spi.sent() == old(self).spi.sent() + read_id_frame()
                &&& final(self).spi.received().len() == old(self).spi.received().len() + 2
                &&& final(self).chip_select.changes() == old(self).chip_select.changes().push(
                    false,
                ).push(true)
            },
            r is Ok ==> final(self).spi.received().last() == MANUFACTURER_ID,
            r == Err::<(), Error>(Error::WrongManufacturerId) ==> final(self).spi.received().last()
                != MANUFACTURER_ID,
            r matches Err(e) ==> e is WrongManufacturerId || ((e is TimeOut || e is SpiError)
                && final(self).spi.received().len() < old(self).spi.received().len() + 2),
            r matches Err(e) ==> (e is WrongManufacturerId || failed_on_bus(
                old(self).events@,
                final(self).events@,
                old(self).spi.faults(),
                final(self).spi.faults(),
                e,
            )),
            r is Ok || r == Err::<(), Error>(Error::WrongManufacturerId) ==> {
                &&& final(self).spi.faults() == old(self).spi.faults()
                &&& final(self).events@ == old(self).events@ + seq![BusEvent::Select] + exchange(
                    read_id_frame(),
                    final(self).spi.received().subrange(
                        old(self).spi.received().len() as int,
                        final(self).spi.received().len() as int,
                    ),
                    4,
                ) + seq![BusEvent::Release]
            },
    {
        let arguments: Vec<u8> = Vec::new();
        let mut response: Vec<u8> = Vec::new();
        response.push(0u8);
        assert(arguments@ =~= seq![]);
        match self.execute_command(Command::ReadId, &arguments, &mut response) {
            Ok(()) => {},
            Err(e) => return Err(e),
        }
        if response[0] == MANUFACTURER_ID {
            Ok(())
        } else {
            Err(Error::WrongManufacturerId)
        }
    }

    /// Reads the status register.
    pub fn status(&mut self) -> (r: Result<Status, Error>)
        ensures
            final(self).timeout == old(self).timeout,
            partial_frame(
                old(self).spi.sent(),
                final(self).spi.sent(),
                command_frame(Command::ReadStatus, seq![], 1),
            ),
            final(self).spi.received().subrange(0, old(self).spi.received().len() as int) == old(
                self,
            ).spi.received(),
            r matches Err(e) ==> (e is TimeOut || e is SpiError) && final(self).spi.received().len()
                < old(self).spi.received().len() + 2,
            r matches Err(e) ==> failed_on_bus(old(self).events@, final(self).events@, old(self).spi.faults(), final(self).spi.faults(), e),
            r is Ok ==> final(self).spi.faults() == old(self).spi.faults(),
            r is Ok ==> final(self).events@ == old(self).events@ + seq![BusEvent::Select] + exchange(
                status_frame(),
                final(self).spi.received().subrange(
                    old(self).spi.received().len() as int,
                    final(self).spi.received().len() as int,
                ),
                4,
            ) + seq![BusEvent::Release],
            r matches Ok(status) ==> {
                &&& final(self).spi.sent() == old(self).spi.sent() + command_frame(
                    Command::ReadStatus,
                    seq![],
                    1,
                )
                &&& final(self).spi.received().len() == old(self).spi.received().len() + 2
                &&& status.write_in_progress == (final(self).spi.received().last() & 1u8 != 0)
                &&& status.write_enable_latch == (final(self).spi.received().last() & 2u8 != 0)
                &&& final(self).chip_select.changes() == old(self).chip_select.changes().push(
                    false,
                ).push(true)
            },
    {
        let arguments: Vec<u8> = Vec::new();
        let mut response: Vec<u8> = Vec::new();
        response.push(0u8);
        assert(arguments@ =~= seq![]);
        match self.execute_command(Command::ReadStatus, &arguments, &mut response) {
            Ok(()) => {},
            Err(e) => return Err(e),
        }
        let response = response[0];
        Ok(Status { write_in_progress: response & 1u8 != 0, write_enable_latch: response & 2u8 != 0 })
    }

    /// Erases the whole chip, unless a write is still in progress.
    pub fn erase(&mut self) -> (r: nb::Result<(), Error>)
        ensures
            final(self).timeout == old(self).timeout,
            r is Ok ==> final(self).spi.sent() == old(self).spi.sent() + command_frame(
                Command::ReadStatus,
                seq![],
                1,
            ) + command_frame(Command::WriteEnable, seq![], 0) + command_frame(
                Command::BulkErase,
                seq![],
                0,
            ) + command_frame(Command::WriteDisable, seq![], 0),
            r == Err::<(), nb::Error<Error>>(nb::Error::WouldBlock) ==> final(self).spi.sent()
                == old(self).spi.sent() + command_frame(Command::ReadStatus, seq![], 1)
                && final(self).spi.received().last() & 1u8 != 0,
            r matches Err(WouldBlockOr::Other(e)) ==> e is TimeOut || e is SpiError,
            final(self).spi.received().subrange(0, old(self).spi.received().len() as int) == old(
                self,
            ).spi.received(),
            old(self).spi.received().len() + 2 <= final(self).spi.received().len() ==> (r == Err::<
                (),
                nb::Error<Error>,
            >(nb::Error::WouldBlock) <==> write_in_progress(final(self).spi.received(), old(self).spi.received().len() as int)),
            final(self).spi.received().len() < old(self).spi.received().len() + 2 ==> r matches Err(WouldBlockOr::Other(_)),
            r matches Err(WouldBlockOr::Other(e)) ==> failed_on_bus(old(self).events@, final(self).events@, old(self).spi.faults(), final(self).spi.faults(), e),
            !(r matches Err(WouldBlockOr::Other(_))) ==> final(self).spi.faults() == old(self).spi.faults(),
    {
        let status = match self.status() {
            Ok(status) => status,
            Err(e) => return Err(nb::Error::Other(e)),
        };
        if status.write_in_progress {
            return Err(nb::Error::WouldBlock);
        }
        let ghost after_status = self.spi.sent();
        let arguments: Vec<u8> = Vec::new();
        let mut response: Vec<u8> = Vec::new();
        assert(arguments@ =~= seq![]);
        match self.execute_command(Command::WriteEnable, &arguments, &mut response) {
            Ok(()) => {},
            Err(e) => return Err(nb::Error::Other(e)),
        }
        match self.execute_command(Command::BulkErase, &arguments, &mut response) {
            Ok(()) => {},
            Err(e) => return Err(nb::Error::Other(e)),
        }
        match self.execute_command(Command::WriteDisable, &arguments, &mut response) {
            Ok(()) => {},
            Err(e) => return Err(nb::Error::Other(e)),
        }
        assert(response@.len() == 0);
        Ok(())
    }

    /// Reads `bytes.len()` bytes of the chip from `address`.
    pub fn read(&mut self, address: Address, bytes: &mut Vec<u8>) -> (r: Result<(), Error>)
        ensures
            final(self).timeout == old(self).timeout,
            final(bytes)@.len() == old(bytes)@.len(),
            address.0 + old(bytes)@.len() > MEMORY_END ==> r == Err::<(), Error>(Error::AddressOutOfRange)
                && *final(self) == *old(self),
            r is Ok ==> {
                &&& final(self).spi.sent() == old(self).spi.sent() + command_frame(
                    Command::Read,
                    address_bytes(address.0),
                    old(bytes)@.len(),
                )
                &&& final(bytes)@ == final(self).spi.received().subrange(
                    final(self).spi.received().len() - old(bytes)@.len(),
                    final(self).spi.received().len() as int,
                )
            },
            r matches Err(e) ==> e is AddressOutOfRange || e is TimeOut || e is SpiError,
            r == Err::<(), Error>(Error::AddressOutOfRange) ==> address.0 + old(bytes)@.len() > MEMORY_END,
            r matches Err(e) ==> e is AddressOutOfRange || failed_on_bus(
                old(self).events@,
                final(self).events@,
                old(self).spi.faults(),
                final(self).spi.faults(),
                e,
            ),
            r is Ok ==> final(self).spi.faults() == old(self).spi.faults(),
    {
        if address.0 > MEMORY_END || bytes.len() > (MEMORY_END - address.0) as usize {
            return Err(Error::AddressOutOfRange);
        }
        let arguments = Self::address_arguments(address.0);
        self.execute_command(Command::Read, &arguments, bytes)
    }

    /// Programs `bytes` from `address`, within one page, unless a write is
    /// still in progress.
    pub fn write_page(&mut self, address: Address, bytes: &Vec<u8>) -> (r: nb::Result<(), Error>)
        ensures
            final(self).timeout == old(self).timeout,
            address.0 + bytes@.len() > MEMORY_END ==> r == Err::<(), nb::Error<Error>>(
                nb::Error::Other(Error::AddressOutOfRange),
            ) && *final(self) == *old(self),
            address.0 + bytes@.len() <= MEMORY_END && address.0 % PAGE_SIZE + bytes@.len() > PAGE_SIZE ==> r
                == Err::<(), nb::Error<Error>>(nb::Error::Other(Error::MisalignedAccess)) && *final(self) == *old(self),
            r is Ok ==> final(self).spi.sent() == old(self).spi.sent() + status_frame() + command_frame(
                Command::WriteEnable,
                seq![],
                0,
            ) + command_frame(Command::PageProgram, address_bytes(address.0) + bytes@, 0),
            r == Err::<(), nb::Error<Error>>(nb::Error::WouldBlock) ==> final(self).spi.sent() == old(
                self,
            ).spi.sent() + status_frame() && final(self).spi.received().last() & 1u8 != 0,
            r == Err::<(), nb::Error<Error>>(nb::Error::Other(Error::AddressOutOfRange)) ==> address.0
                + bytes@.len() > MEMORY_END,
            r == Err::<(), nb::Error<Error>>(nb::Error::Other(Error::MisalignedAccess)) ==> address.0
                + bytes@.len() <= MEMORY_END && address.0 % PAGE_SIZE + bytes@.len() > PAGE_SIZE,
            r matches Err(WouldBlockOr::Other(e)) ==> e is AddressOutOfRange || e is MisalignedAccess
                || e is TimeOut || e is SpiError,
            final(self).spi.received().subrange(0, old(self).spi.received().len() as int) == old(
                self,
            ).spi.received(),
            old(self).spi.received().len() + 2 <= final(self).spi.received().len() ==> (r == Err::<
                (),
                nb::Error<Error>,
            >(nb::Error::WouldBlock) <==> write_in_progress(final(self).spi.received(), old(self).spi.received().len() as int)),
            final(self).spi.received().len() < old(self).spi.received().len() + 2 ==> r matches Err(WouldBlockOr::Other(_)),
            r matches Err(WouldBlockOr::Other(e)) ==> e is AddressOutOfRange || e is MisalignedAccess || failed_on_bus(
                old(self).events@,
                final(self).events@,
                old(self).spi.faults(),
                final(self).spi.faults(),
                e,
            ),
            !(r matches Err(WouldBlockOr::Other(_))) ==> final(self).spi.faults() == old(self).spi.faults(),
    {
        if address.0 > MEMORY_END || bytes.len() > (MEMORY_END - address.0) as usize {
            return Err(nb::Error::Other(Error::AddressOutOfRange));
        }
        if (address.0 % PAGE_SIZE) as usize + bytes.len() > PAGE_SIZE as usize {
            return Err(nb::Error::Other(Error::MisalignedAccess));
        }
        let mut arguments = Self::address_arguments(address.0);
        let mut i: usize = 0;
        while i < bytes.len()
            invariant
                0 <= i <= bytes@.len(),
                arguments@ == address_bytes(address.0) + bytes@.subrange(0, i as int),
            decreases bytes@.len() - i,
        {
            arguments.push(bytes[i]);
            i += 1;
            assert(arguments@ =~= address_bytes(address.0) + bytes@.subrange(0, i as int));
        }
        assert(bytes@.subrange(0, bytes@.len() as int) =~= bytes@);
        self.write_enabled_command(Command::PageProgram, &arguments)
    }

    /// Erases the subsector that starts at `sector`, unless a write is still
    /// in progress.
    pub fn erase_subsector(&mut self, sector: Sector) -> (r: nb::Result<(), Error>)
        ensures
            final(self).timeout == old(self).timeout,
            sector.0.0 >= MEMORY_END ==> r == Err::<(), nb::Error<Error>>(
                nb::Error::Other(Error::AddressOutOfRange),
            ) && *final(self) == *old(self),
            sector.0.0 < MEMORY_END && sector.0.0 % SUBSECTOR_SIZE != 0 ==> r == Err::<(), nb::Error<Error>>(
                nb::Error::Other(Error::MisalignedAccess),
            ) && *final(self) == *old(self),
            r is Ok ==> final(self).spi.sent() == old(self).spi.sent() + status_frame() + command_frame(
                Command::WriteEnable,
                seq![],
                0,
            ) + command_frame(Command::SubsectorErase, address_bytes(sector.0.0), 0),
            r == Err::<(), nb::Error<Error>>(nb::Error::WouldBlock) ==> final(self).spi.sent() == old(
                self,
            ).spi.sent() + status_frame() && final(self).spi.received().last() & 1u8 != 0,
            r == Err::<(), nb::Error<Error>>(nb::Error::Other(Error::AddressOutOfRange)) ==> sector.0.0
                >= MEMORY_END,
            r == Err::<(), nb::Error<Error>>(nb::Error::Other(Error::MisalignedAccess)) ==> sector.0.0
                < MEMORY_END && sector.0.0 % SUBSECTOR_SIZE != 0,
            r matches Err(WouldBlockOr::Other(e)) ==> e is AddressOutOfRange || e is MisalignedAccess
                || e is TimeOut || e is SpiError,
            final(self).spi.received().subrange(0, old(self).spi.received().len() as int) == old(
                self,
            ).spi.received(),
            old(self).spi.received().len() + 2 <= final(self).spi.received().len() ==> (r == Err::<
                (),
                nb::Error<Error>,
            >(nb::Error::WouldBlock) <==> write_in_progress(final(self).spi.received(), old(self).spi.received().len() as int)),
            final(self).spi.received().len() < old(self).spi.received().len() + 2 ==> r matches Err(WouldBlockOr::Other(_)),
            r matches Err(WouldBlockOr::Other(e)) ==> e is AddressOutOfRange || e is MisalignedAccess || failed_on_bus(
                old(self).events@,
                final(self).events@,
                old(self).spi.faults(),
                final(self).spi.faults(),
                e,
            ),
            !(r matches Err(WouldBlockOr::Other(_))) ==> final(self).spi.faults() == old(self).spi.faults(),
    {
        if sector.0.0 >= MEMORY_END {
            return Err(nb::Error::Other(Error::AddressOutOfRange));
        }
        if sector.0.0 % SUBSECTOR_SIZE != 0 {
            return Err(nb::Error::Other(Error::MisalignedAccess));
        }
        let arguments = Self::address_arguments(sector.0.0);
        self.write_enabled_command(Command::SubsectorErase, &arguments)
    }

    fn address_arguments(address: u32) -> (r: Vec<u8>)
        ensures
            r@ == address_bytes(address),
    {
        let mut arguments: Vec<u8> = Vec::new();
        arguments.push(((address >> 16u32) & 0xFFu32) as u8);
        arguments.push(((address >> 8u32) & 0xFFu32) as u8);
        arguments.push((address & 0xFFu32) as u8);
        assert(arguments@ =~= address_bytes(address));
        arguments
    }

    /// Checks that no write is in progress, enables writes, then sends
    /// `command` with its arguments.
    fn write_enabled_command(&mut self, command: Command, arguments: &Vec<u8>) -> (r: nb::Result<(), Error>)
        requires
            arguments@.len() <= 3 + PAGE_SIZE,
        ensures
            final(self).timeout == old(self).timeout,
            r is Ok ==> final(self).spi.sent() == old(self).spi.sent() + status_frame() + command_frame(
                Command::WriteEnable,
                seq![],
                0,
            ) + command_frame(command, arguments@, 0),
            r == Err::<(), nb::Error<Error>>(nb::Error::WouldBlock) ==> final(self).spi.sent() == old(
                self,
            ).spi.sent() + status_frame() && final(self).spi.received().last() & 1u8 != 0,
            r matches Err(WouldBlockOr::Other(e)) ==> e is TimeOut || e is SpiError,
            final(self).spi.received().subrange(0, old(self).spi.received().len() as int) == old(
                self,
            ).spi.received(),
            old(self).spi.received().len() + 2 <= final(self).spi.received().len() ==> (r == Err::<
                (),
                nb::Error<Error>,
            >(nb::Error::WouldBlock) <==> write_in_progress(final(self).spi.received(), old(self).spi.received().len() as int)),
            final(self).spi.received().len() < old(self).spi.received().len() + 2 ==> r matches Err(WouldBlockOr::Other(_)),
            r matches Err(WouldBlockOr::Other(e)) ==> failed_on_bus(old(self).events@, final(self).events@, old(self).spi.faults(), final(self).spi.faults(), e),
            !(r matches Err(WouldBlockOr::Other(_))) ==> final(self).spi.faults() == old(self).spi.faults(),
    {
        let status = match self.status() {
            Ok(status) => status,
            Err(e) => return Err(nb::Error::Other(e)),
        };
        if status.write_in_progress {
            return Err(nb::Error::WouldBlock);
        }
        let no_arguments: Vec<u8> = Vec::new();
        let mut response: Vec<u8> = Vec::new();
        assert(no_arguments@ =~= seq![]);
        match self.execute_command(Command::WriteEnable, &no_arguments, &mut response) {
            Ok(()) => {},
            Err(e) => return Err(nb::Error::Other(e)),
        }
        match self.execute_command(command, arguments, &mut response) {
            Ok(()) => {},
            Err(e) => return Err(nb::Error::Other(e)),
        }
        assert(response@.len() == 0);
        Ok(())
    }

    /// Takes the bus and checks the identity of the chip, with the default
    /// timeout for each transfer.
    pub fn new(spi: SPI, chip_select: CS) -> (r: Result<Self, Error>)
        ensures
            r matches Ok(flash) ==> {
                &&& flash.spi.sent() == spi.sent() + read_id_frame()
                &&& flash.spi.received().last() == MANUFACTURER_ID
                &&& flash.chip_select.changes() == chip_select.changes().push(false).push(true)
                &&& flash.timeout == DEFAULT_TIMEOUT_POLLS
                &&& flash.spi.faults() == spi.faults()
                &&& flash.events@ == seq![BusEvent::Select] + exchange(
                    read_id_frame(),
                    flash.spi.received().subrange(spi.received().len() as int, flash.spi.received().len() as int),
                    4,
                ) + seq![BusEvent::Release]
            },
            r matches Err(e) ==> e is WrongManufacturerId || e is TimeOut || e is SpiError,
    {
        Self::with_timeout(spi, chip_select, DEFAULT_TIMEOUT_POLLS)
    }

    /// Takes the bus and checks the identity of the chip; each transfer
    /// may poll the bus `timeout` times.
    pub fn with_timeout(spi: SPI, chip_select: CS, timeout: u32) -> (r: Result<Self, Error>)
        ensures
            r matches Ok(flash) ==> {
                &&& flash.spi.sent() == spi.sent() + read_id_frame()
                &&& flash.spi.received().last() == MANUFACTURER_ID
                &&& flash.chip_select.changes() == chip_select.changes().push(false).push(true)
                &&& flash.timeout == timeout
                &&& flash.spi.faults() == spi.faults()
                &&& flash.events@ == seq![BusEvent::Select] + exchange(
                    read_id_frame(),
                    flash.spi.received().subrange(spi.received().len() as int, flash.spi.received().len() as int),
                    4,
                ) + seq![BusEvent::Release]
            },
            r matches Err(e) ==> e is WrongManufacturerId || e is TimeOut || e is SpiError,
    {
        let mut flash = Self { spi, chip_select, timeout, events: Ghost(Seq::empty()) };
        match flash.verify_id() {
            Ok(()) => Ok(flash),
            Err(e) => Err(e),
        }
    }
}

} // verus!
