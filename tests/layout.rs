use loadstone::boot_manager::check_catalog;
use loadstone::layout::{
    external_banks, external_image_offset, generate_external_banks, generate_mcu_banks, image_size,
    mcu_banks, mcu_image_offset, min, BankConfiguration,
};
use loadstone::sector_map::{writable_range, Address};

#[test]
fn writable_range_is_the_main_block() {
    assert_eq!(writable_range(), (Address(0x0801_0000), Address(0x0810_0000)));
}

#[test]
fn image_size_is_the_smaller_share() {
    assert_eq!(min(3, 5), 3);
    assert_eq!(min(5, 3), 3);
    assert_eq!(image_size(), 0xF_0000);
    assert_eq!(mcu_image_offset(0), Address(0x0801_0000));
    assert_eq!(external_image_offset(1).0, 0xF_0000);
}

#[test]
fn discovery_layout_is_a_sound_catalog() {
    let mcu = mcu_banks();
    let external = external_banks();
    assert!(check_catalog(&mcu, &external));
    assert!(mcu[0].bootable);
    assert!(external[1].is_golden);
}

#[test]
fn configured_banks_get_indices_and_flags() {
    let configs = vec![
        BankConfiguration { start_address: 0x0801_0000, size_kb: 64 },
        BankConfiguration { start_address: 0x0802_0000, size_kb: 128 },
    ];
    let mcu = generate_mcu_banks(1, &configs, Some(0), Some(1));
    assert_eq!(mcu.len(), 2);
    assert_eq!((mcu[0].index, mcu[0].bootable, mcu[0].is_golden, mcu[0].size), (1, true, false, 65536));
    assert_eq!((mcu[1].index, mcu[1].bootable, mcu[1].is_golden, mcu[1].size), (2, false, true, 131072));
    let external = generate_external_banks(3, &configs, Some(4));
    assert_eq!((external[0].index, external[0].is_golden), (3, false));
    assert_eq!((external[1].index, external[1].is_golden, external[1].bootable), (4, true, false));
    assert_eq!(external[1].location.0, 0x0802_0000);
}
