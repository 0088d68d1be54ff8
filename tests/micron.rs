use loadstone::micron::{Address, Command, Error, MicronN25q128a, Sector, MANUFACTURER_ID};
use loadstone::mock::{MockPin, MockSpi};

fn flash_to_test() -> MicronN25q128a<MockSpi, MockPin> {
    let mut spi = MockSpi::new();
    spi.to_receive.push_back(0);
    spi.to_receive.push_back(MANUFACTURER_ID);
    let pin = MockPin::default();
    let mut flash = MicronN25q128a::new(spi, pin).unwrap();
    // Chip select line is wiggled to send command
    assert_eq!(flash.chip_select.changes.len(), 2);
    assert_eq!(flash.chip_select.changes[0], false);
    assert_eq!(flash.chip_select.changes[1], true);
    assert_eq!(flash.spi.sent.pop_front().unwrap(), Command::ReadId.opcode());
    flash.spi.sent.clear();
    flash
}

#[test]
fn initialisation_succeeds_for_correct_manufacturer_id() {
    const WRONG_MANUFACTURER_ID: u8 = 0x21;

    // Given
    let mut spi = MockSpi::new();
    spi.to_receive.push_back(0);
    spi.to_receive.push_back(WRONG_MANUFACTURER_ID);

    // Then
    assert!(MicronN25q128a::new(spi, MockPin::default()).is_err());

    // Given
    let mut spi = MockSpi::new();
    spi.to_receive.push_back(0);
    spi.to_receive.push_back(MANUFACTURER_ID);

    // Then
    assert!(MicronN25q128a::new(spi, MockPin::default()).is_ok());
}

#[test]
fn bulk_erase_sets_write_enable_writes_command_and_sets_write_disable() {
    // Given
    let mut flash = flash_to_test();
    // The status register reads idle before the erase starts.
    flash.spi.to_receive.push_back(0);
    flash.spi.to_receive.push_back(0);
    flash.spi.to_receive.push_back(0);
    flash.spi.to_receive.push_back(0);
    flash.spi.to_receive.push_back(0);

    // When
    flash.erase().unwrap();

    // Then
    assert_eq!(flash.spi.sent[0], Command::ReadStatus.opcode());
    assert_eq!(flash.spi.sent[1], Command::WriteEnable.opcode());
    assert_eq!(flash.spi.sent[2], Command::BulkErase.opcode());
    assert_eq!(flash.spi.sent[3], Command::WriteDisable.opcode());
}

#[test]
fn write_capable_commands_yield_if_device_is_busy() {
    // Given
    let mut flash = flash_to_test();
    flash.spi.to_receive.push_back(0);
    flash.spi.to_receive.push_back(0b01);

    // Then
    assert!(matches!(flash.erase(), Err(nb::Error::WouldBlock)));
    assert_eq!(flash.spi.sent.len(), 1);
    assert_eq!(flash.spi.sent[0], Command::ReadStatus.opcode());
}

#[test]
fn wrong_manufacturer_id_fails_construction_without_write_commands() {
    let mut spi = MockSpi::new();
    spi.to_receive.push_back(0);
    spi.to_receive.push_back(0x21);
    let result = MicronN25q128a::new(spi, MockPin::default());
    assert!(matches!(result, Err(Error::WrongManufacturerId)));
}

#[test]
fn identity_check_sends_only_the_identification_command() {
    let mut spi = MockSpi::new();
    spi.to_receive.push_back(0);
    spi.to_receive.push_back(MANUFACTURER_ID);
    spi.to_receive.push_back(0);
    spi.to_receive.push_back(0x7F);
    let mut flash = MicronN25q128a::new(spi, MockPin::default()).unwrap();
    flash.spi.sent.clear();
    assert_eq!(flash.verify_id(), Err(Error::WrongManufacturerId));
    assert_eq!(flash.spi.sent.len(), 1);
    assert_eq!(flash.spi.sent[0], 0x9E);
    assert!(!flash.spi.sent.iter().any(|b| *b == 0x06 || *b == 0xC7 || *b == 0x02 || *b == 0x20));
}

#[test]
fn silent_device_times_out() {
    let spi = MockSpi::new();
    let result = MicronN25q128a::with_timeout(spi, MockPin::default(), 3);
    assert!(matches!(result, Err(Error::TimeOut)));
}

#[test]
fn status_register_bits_are_decoded() {
    let mut flash = flash_to_test();
    flash.spi.to_receive.push_back(0);
    flash.spi.to_receive.push_back(0b10);
    let status = flash.status().unwrap();
    assert!(status.write_enable_latch);
    assert!(!status.write_in_progress);
}

#[test]
fn only_bulk_erase_writes_data() {
    assert!(Command::BulkErase.writes_data());
    assert!(!Command::ReadId.writes_data());
    assert!(!Command::WriteEnable.writes_data());
}

#[test]
fn faulty_bus_reports_spi_error() {
    let mut spi = MockSpi::new();
    spi.faulty = true;
    let result = MicronN25q128a::new(spi, MockPin::default());
    assert!(matches!(result, Err(Error::SpiError)));
}

fn answer_zeros(flash: &mut MicronN25q128a<MockSpi, MockPin>, count: usize) {
    for _ in 0..count {
        flash.spi.to_receive.push_back(0);
    }
}

#[test]
fn read_sends_the_address_and_returns_the_response() {
    let mut flash = flash_to_test();
    answer_zeros(&mut flash, 4);
    flash.spi.to_receive.extend([7, 8, 9]);
    let mut bytes = vec![0u8; 3];
    flash.read(Address(0x01_0203), &mut bytes).unwrap();
    assert_eq!(bytes, vec![7, 8, 9]);
    assert_eq!(Vec::from(flash.spi.sent.clone()), vec![0x03, 0x01, 0x02, 0x03]);
}

#[test]
fn read_past_the_end_is_out_of_range() {
    let mut flash = flash_to_test();
    let mut bytes = vec![0u8; 4];
    assert_eq!(flash.read(Address(0x00FF_FFFE), &mut bytes), Err(Error::AddressOutOfRange));
    assert!(flash.spi.sent.is_empty());
}

#[test]
fn page_program_enables_writes_then_sends_address_and_data() {
    let mut flash = flash_to_test();
    answer_zeros(&mut flash, 2 + 1 + 4 + 2);
    flash.write_page(Address(0x00_0100), &vec![0xAB, 0xCD]).unwrap();
    assert_eq!(Vec::from(flash.spi.sent.clone()), vec![0x05, 0x06, 0x02, 0x00, 0x01, 0x00, 0xAB, 0xCD]);
}

#[test]
fn page_program_across_a_page_boundary_is_misaligned() {
    let mut flash = flash_to_test();
    let result = flash.write_page(Address(0x00_01FF), &vec![1, 2]);
    assert!(matches!(result, Err(nb::Error::Other(Error::MisalignedAccess))));
    assert!(flash.spi.sent.is_empty());
}

#[test]
fn subsector_erase_checks_alignment() {
    let mut flash = flash_to_test();
    let result = flash.erase_subsector(Sector(Address(0x1001)));
    assert!(matches!(result, Err(nb::Error::Other(Error::MisalignedAccess))));
    answer_zeros(&mut flash, 2 + 1 + 4);
    flash.erase_subsector(Sector(Address(0x2000))).unwrap();
    assert_eq!(Vec::from(flash.spi.sent.clone()), vec![0x05, 0x06, 0x20, 0x00, 0x20, 0x00]);
    assert!(Command::SubsectorErase.writes_data());
}
