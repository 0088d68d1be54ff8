use loadstone::sector_map::{memory_map, Address, Block, MemoryMap, Range, Sector};

#[test]
fn ranges_span_the_correct_sectors() {
    let range = Range(Address(0x0801_1234), Address(0x0804_5678));
    let map = memory_map();
    let expected_sectors = &map.sectors[4..7];

    assert_eq!(expected_sectors, &range.span()[..]);
}

#[test]
fn memory_map_is_sound() {
    assert!(memory_map().is_sound());
}

#[test]
fn swapped_sectors_fail_soundness() {
    let mut map = memory_map();
    map.sectors.swap(5, 6);
    assert!(!map.is_sound());
}

#[test]
fn gap_in_main_area_fails_soundness() {
    let map = MemoryMap {
        sectors: vec![
            Sector::new(Block::Boot, 0x0800_0000, 0x0800_4000),
            Sector::new(Block::Main, 0x0800_8000, 0x0800_C000),
            Sector::new(Block::SystemMemory, 0x1FFF_0000, 0x1FFF_7800),
        ],
    };
    assert!(!map.is_sound());
}

#[test]
fn overlapping_sectors_fail_soundness() {
    let map = MemoryMap {
        sectors: vec![
            Sector::new(Block::Main, 0x0800_0000, 0x0800_5000),
            Sector::new(Block::Main, 0x0800_4000, 0x0800_8000),
        ],
    };
    assert!(!map.is_sound());
}

#[test]
fn main_area_split_by_system_memory_fails_soundness() {
    let map = MemoryMap {
        sectors: vec![
            Sector::new(Block::Main, 0x0800_0000, 0x0800_4000),
            Sector::new(Block::SystemMemory, 0x0800_4000, 0x0800_8000),
            Sector::new(Block::Main, 0x0800_8000, 0x0800_C000),
        ],
    };
    assert!(!map.is_sound());
}

#[test]
fn addresses_find_their_sector() {
    let map = memory_map();
    assert_eq!(Address(0x0801_0000).sector(), Some(map.sectors[4]));
    assert_eq!(Address(0x080F_FFFF).sector(), Some(map.sectors[11]));
    assert_eq!(Address(0x0900_0000).sector(), None);
    assert!(Address(0x0800_4000).is_inside(&map.sectors[1]));
    assert!(!Address(0x0800_4000).is_inside(&map.sectors[0]));
}

#[test]
fn writability_of_ranges() {
    assert!(Range(Address(0x0801_0000), Address(0x0810_0000)).is_writable());
    assert!(!Range(Address(0x0800_C000), Address(0x0801_0004)).is_writable());
    assert!(!Range(Address(0x080F_FFF0), Address(0x0810_0010)).is_writable());
    assert!(Range(Address(0x0801_0000), Address(0x0801_0000)).is_writable());
}

#[test]
fn sector_numbers_and_sizes() {
    let map = memory_map();
    assert_eq!(map.sectors[5].number(), Some(5));
    assert_eq!(map.sectors[12].number(), None);
    assert_eq!(map.sectors[4].size(), 0x1_0000);
    assert!(map.sectors[4].is_writable());
    assert!(!map.sectors[0].is_writable());
    assert!(map.sectors[0].is_in_main_memory_area());
}

#[test]
fn range_validity() {
    assert!(Range(Address(0x0801_0000), Address(0x0802_0000)).is_valid());
    assert!(!Range(Address(0x0802_0000), Address(0x0801_0000)).is_valid());
    assert!(!Range(Address(0x2000_0000), Address(0x2000_0010)).is_valid());
}

#[test]
fn empty_last_sector_keeps_the_map_sound() {
    let mut map = memory_map();
    let last = map.sectors.len() - 1;
    map.sectors[last] = Sector::new(Block::OptionBytes, 0x1FFF_C000, 0x1FFF_C000);
    assert!(map.is_sound());
}

#[test]
fn reversed_sector_fails_soundness() {
    let mut map = memory_map();
    map.sectors[14] = Sector::new(Block::OptionBytes, 0x1FFF_C010, 0x1FFF_C000);
    assert!(!map.is_sound());
}
