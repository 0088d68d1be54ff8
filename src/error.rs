//! Error types of the bootloader, and their reports on the diagnostic
//! channel.

use crate::mcu_flash;
use crate::micron;
use crate::serial::Write;
use vstd::prelude::*;

verus! {

/// Top level error type of the bootloader. Unlike the errors of the
/// drivers, it carries a description meant to be reported as text.
#[derive(Debug, Copy, Clone, PartialEq)]
pub enum Error {
    /// Error caused by a low level peripheral driver
    DriverError(&'static str),
    /// Error caused by a faulty configuration
    ConfigurationError(&'static str),
    /// Error caused by a high level device driver
    DeviceError(&'static str),
    BankInvalid,
    NotEnoughData,
    BankEmpty,
    ImageTooBig,
    FlashCorrupted,
    NoImageToRestoreFrom,
    CrcInvalid,
    SignatureInvalid,
}

/// Marks driver errors that convert into the bootloader error.
pub trait ConvertibleToBootloaderError {}

impl ConvertibleToBootloaderError for mcu_flash::Error {}

impl ConvertibleToBootloaderError for micron::Error {}

/// The line that reports `error`, without its line break.
pub open spec fn report_text(error: Error) -> Seq<char> {
    match error {
        Error::DriverError(text) => "[Driver Error] -> "@ + text@,
        Error::ConfigurationError(text) => "[Configuration Error] -> "@ + text@,
        Error::DeviceError(text) => "[Device Error] -> "@ + text@,
        Error::ImageTooBig => "[Logic Error] -> Firmware image too big"@,
        Error::BankInvalid => "[Logic Error] -> Bank doesn't exist or is invalid in this context"@,
        Error::BankEmpty => "[Logic Error] -> Bank is empty (contains no firmware image)"@,
        Error::FlashCorrupted => "[Logic Error] -> Flash memory is corrupted or outdated"@,
        Error::CrcInvalid => "[LogicError] -> Image CRC is invalid"@,
        Error::SignatureInvalid => "[LogicError] -> Image signature is invalid"@,
        Error::NotEnoughData => "[Transfer Error] -> Not enough image data received"@,
        Error::NoImageToRestoreFrom => "[Logic Error] -> No image to restore from"@,
    }
}

impl Error {
    /// Reports the error as one line on the serial channel.
    pub fn report<S: Write>(&self, serial: &mut S)
        ensures
            final(serial).written() == old(serial).written() + report_text(*self) + "\n"@,
    {
        match self {
            Error::DriverError(text) => {
                serial.write_str("[Driver Error] -> ");
                serial.write_str(text);
            },
            Error::ConfigurationError(text) => {
                serial.write_str("[Configuration Error] -> ");
                serial.write_str(text);
            },
            Error::DeviceError(text) => {
                serial.write_str("[Device Error] -> ");
                serial.write_str(text);
            },
            Error::ImageTooBig => serial.write_str("[Logic Error] -> Firmware image too big"),
            Error::BankInvalid => serial.write_str(
                "[Logic Error] -> Bank doesn't exist or is invalid in this context",
            ),
            Error::BankEmpty => serial.write_str(
                "[Logic Error] -> Bank is empty (contains no firmware image)",
            ),
            Error::FlashCorrupted => serial.write_str(
                "[Logic Error] -> Flash memory is corrupted or outdated",
            ),
            Error::CrcInvalid => serial.write_str("[LogicError] -> Image CRC is invalid"),
            Error::SignatureInvalid => serial.write_str("[LogicError] -> Image signature is invalid"),
            Error::NotEnoughData => serial.write_str(
                "[Transfer Error] -> Not enough image data received",
            ),
            Error::NoImageToRestoreFrom => serial.write_str("[Logic Error] -> No image to restore from"),
        }
        serial.write_str("\n");
        assert(serial.written() =~= old(serial).written() + report_text(*self) + "\n"@);
    }
}

impl From<mcu_flash::Error> for Error {
    fn from(error: mcu_flash::Error) -> (r: Self) {
        match error {
            mcu_flash::Error::MemoryNotReachable => Error::DriverError("[MCU Flash] Memory not reachable"),
            mcu_flash::Error::MisalignedAccess => Error::DriverError("[MCU Flash] Misaligned memory access"),
            mcu_flash::Error::MemoryNotWritable => Error::DriverError("[MCU Flash] Memory not writable"),
        }
    }
}

impl vstd::std_specs::convert::FromSpecImpl<mcu_flash::Error> for Error {
    open spec fn obeys_from_spec() -> bool {
        true
    }

    open spec fn from_spec(error: mcu_flash::Error) -> Error {
        match error {
            mcu_flash::Error::MemoryNotReachable => Error::DriverError("[MCU Flash] Memory not reachable"),
            mcu_flash::Error::MisalignedAccess => Error::DriverError("[MCU Flash] Misaligned memory access"),
            mcu_flash::Error::MemoryNotWritable => Error::DriverError("[MCU Flash] Memory not writable"),
        }
    }
}

impl From<micron::Error> for Error {
    fn from(error: micron::Error) -> (r: Self) {
        match error {
            micron::Error::TimeOut => Error::DriverError("[External Flash] Operation timed out"),
            micron::Error::SpiError => Error::DriverError("[External Flash] Spi error"),
            micron::Error::WrongManufacturerId => Error::DriverError("[External Flash] Wrong manufacturer ID"),
            micron::Error::MisalignedAccess => Error::DriverError("[External Flash] Misaligned memory access"),
            micron::Error::AddressOutOfRange => Error::DriverError("[External Flash] Address out of range"),
        }
    }
}

impl vstd::std_specs::convert::FromSpecImpl<micron::Error> for Error {
    open spec fn obeys_from_spec() -> bool {
        true
    }

    open spec fn from_spec(error: micron::Error) -> Error {
        match error {
            micron::Error::TimeOut => Error::DriverError("[External Flash] Operation timed out"),
            micron::Error::SpiError => Error::DriverError("[External Flash] Spi error"),
            micron::Error::WrongManufacturerId => Error::DriverError("[External Flash] Wrong manufacturer ID"),
            micron::Error::MisalignedAccess => Error::DriverError("[External Flash] Misaligned memory access"),
            micron::Error::AddressOutOfRange => Error::DriverError("[External Flash] Address out of range"),
        }
    }
}

} // verus!
