use loadstone::mcu_flash::{Error, McuFlash};
use loadstone::mock::SimulatedFlash;
use loadstone::sector_map::{memory_map, Address};

fn flash() -> McuFlash<SimulatedFlash> {
    McuFlash::new(SimulatedFlash::new(3)).ok().unwrap()
}

#[test]
fn programmed_bytes_read_back() {
    let mut flash = flash();
    let data: Vec<u8> = (0..37u32).map(|i| (i * 7 + 1) as u8).collect();
    assert!(flash.write(Address(0x0802_0100), &data).is_ok());
    let mut back = vec![0u8; data.len()];
    assert!(flash.read(Address(0x0802_0100), &mut back).is_ok());
    assert_eq!(back, data);
    // The padding of the last word is zero, the rest of the sector erased.
    let mut tail = vec![0u8; 4];
    flash.read(Address(0x0802_0100 + 37), &mut tail).unwrap();
    assert_eq!(tail, vec![0, 0, 0, 0xFF]);
}

#[test]
fn misaligned_program_fails_and_changes_nothing() {
    let mut flash = flash();
    flash.write(Address(0x0801_0000), &[1, 2, 3, 4]).unwrap();
    let result = flash.write(Address(0x0801_0002), &[9, 9]);
    assert!(matches!(result, Err(nb::Error::Other(Error::MisalignedAccess))));
    let mut back = vec![0u8; 4];
    flash.read(Address(0x0801_0000), &mut back).unwrap();
    assert_eq!(back, vec![1, 2, 3, 4]);
}

#[test]
fn program_over_boot_sector_fails_without_erase() {
    let mut flash = flash();
    flash.write(Address(0x0801_0000), &[5, 6, 7, 8]).unwrap();
    let result = flash.write(Address(0x0800_FFFC), &[0; 8]);
    assert!(matches!(result, Err(nb::Error::Other(Error::MemoryNotWritable))));
    let mut back = vec![0u8; 4];
    flash.read(Address(0x0801_0000), &mut back).unwrap();
    assert_eq!(back, vec![5, 6, 7, 8]);
}

#[test]
fn program_past_the_end_of_flash_fails() {
    let mut flash = flash();
    let result = flash.write(Address(0x080F_FFFC), &[0; 8]);
    assert!(matches!(result, Err(nb::Error::Other(Error::MemoryNotWritable))));
}

#[test]
fn busy_controller_reports_would_block() {
    let mut controller = SimulatedFlash::new(0);
    controller.set_busy(2);
    let mut flash = McuFlash::new(controller).ok().unwrap();
    assert!(matches!(flash.write(Address(0x0801_0000), &[1, 2, 3, 4]), Err(nb::Error::WouldBlock)));
    assert!(matches!(flash.write(Address(0x0801_0000), &[1, 2, 3, 4]), Err(nb::Error::WouldBlock)));
    assert!(flash.write(Address(0x0801_0000), &[1, 2, 3, 4]).is_ok());
}

#[test]
fn program_across_sectors_erases_both() {
    let mut flash = flash();
    flash.write_blocking(Address(0x0803_FFF0), &[0xAA; 4]).unwrap();
    flash.write_blocking(Address(0x0804_0010), &[0xBB; 4]).unwrap();
    flash.write_blocking(Address(0x0803_FFFC), &[1, 2, 3, 4, 5, 6, 7, 8]).unwrap();
    let mut back = vec![0u8; 4];
    flash.read(Address(0x0803_FFF0), &mut back).unwrap();
    assert_eq!(back, vec![0xFF; 4]);
    flash.read(Address(0x0804_0010), &mut back).unwrap();
    assert_eq!(back, vec![0xFF; 4]);
    let mut both = vec![0u8; 8];
    flash.read(Address(0x0803_FFFC), &mut both).unwrap();
    assert_eq!(both, vec![1, 2, 3, 4, 5, 6, 7, 8]);
}

#[test]
fn reads_outside_main_memory_fail() {
    let flash = flash();
    let mut back = vec![0u8; 4];
    assert_eq!(flash.read(Address(0x1FFF_0000), &mut back), Err(Error::MemoryNotReachable));
    assert_eq!(flash.read(Address(0x080F_FFFE), &mut back), Err(Error::MemoryNotReachable));
}

#[test]
fn erase_rejects_sectors_outside_the_main_area() {
    let mut flash = flash();
    let map = memory_map();
    assert!(matches!(flash.erase(&map.sectors[13]), Err(nb::Error::Other(Error::MemoryNotWritable))));
    assert!(flash.erase(&map.sectors[4]).is_ok());
}
