use loadstone::error::Error;
use loadstone::mcu_flash;
use loadstone::micron;
use loadstone::mock::TextSink;

#[test]
fn errors_report_one_line() {
    let mut out = TextSink::new();
    Error::CrcInvalid.report(&mut out);
    Error::DriverError("[MCU Flash] Misaligned memory access").report(&mut out);
    assert_eq!(
        out.chars.iter().collect::<String>(),
        "[LogicError] -> Image CRC is invalid\n[Driver Error] -> [MCU Flash] Misaligned memory access\n"
    );
}

#[test]
fn driver_errors_convert() {
    assert_eq!(
        Error::from(mcu_flash::Error::MisalignedAccess),
        Error::DriverError("[MCU Flash] Misaligned memory access")
    );
    assert_eq!(
        Error::from(micron::Error::WrongManufacturerId),
        Error::DriverError("[External Flash] Wrong manufacturer ID")
    );
}
