//! Static memory map of the internal MCU flash, and the address
//! classification queries built on it.

use vstd::prelude::*;

verus! {

/// First address of the internal flash main memory area.
pub const FLASH_START: u32 = 0x0800_0000;

/// End (exclusive) of the internal flash main memory area.
pub const FLASH_END: u32 = 0x0810_0000;

/// Number of sectors in the internal flash memory map.
pub const SECTOR_NUMBER: usize = 15;

/// Address into the internal flash address space.
#[derive(Copy, Clone, Debug, PartialEq, Eq, PartialOrd, Structural)]
pub struct Address(pub u32);

/// Half open range of internal flash addresses.
#[derive(Copy, Clone, Debug)]
pub struct Range(pub Address, pub Address);

/// Address blocks of the internal flash.
#[derive(Copy, Clone, Debug, PartialEq, Eq, Structural)]
pub enum Block {
    /// Main memory, but reserved for the bootloader itself
    Boot,
    /// Main memory, where application images are written
    Main,
    SystemMemory,
    OneTimeProgrammable,
    OptionBytes,
}

/// A memory map sector, with an associated block and an address range.
#[derive(Copy, Clone, Debug, PartialEq, Eq, Structural)]
pub struct Sector {
    pub block: Block,
    pub start: Address,
    pub end: Address,
}

/// Ordered table of the sectors of one flash device.
pub struct MemoryMap {
    pub sectors: Vec<Sector>,
}

impl Sector {
    pub open spec fn contains(self, address: int) -> bool {
        self.start.0 <= address < self.end.0
    }

    pub open spec fn in_main_area(self) -> bool {
        self.block == Block::Boot || self.block == Block::Main
    }

    pub open spec fn writable(self) -> bool {
        self.block == Block::Main
    }

    /// The sector shares at least one address with the range `[start, end)`.
    pub open spec fn touches(self, start: int, end: int) -> bool {
        start < end && self.start.0 < self.end.0 && self.start.0 < end && start < self.end.0
    }

    pub fn new(block: Block, start: u32, end: u32) -> (s: Self)
        ensures
            s == (Sector { block, start: Address(start), end: Address(end) }),
    {
        Sector { block, start: Address(start), end: Address(end) }
    }

    /// Position of this sector in the internal flash memory map, for main
    /// area sectors.
    pub fn number(&self) -> (r: Option<u8>)
        ensures
            r matches Some(n) ==> n < SECTOR_NUMBER && spec_memory_map()[n as int] == *self
                && self.in_main_area(),
            r is None ==> !self.in_main_area() || !spec_memory_map().contains(*self),
    {
        if !self.is_in_main_memory_area() {
            return None;
        }
        let map = memory_map();
        let mut index: usize = 0;
        while index < map.sectors.len()
            invariant
                map.sectors@ == spec_memory_map(),
                map.sectors.len() == SECTOR_NUMBER,
                self.in_main_area(),
                0 <= index <= map.sectors.len(),
                forall|k: int| 0 <= k < index ==> map.sectors@[k] != *self,
            decreases map.sectors.len() - index,
        {
            if map.sectors[index] == *self {
                assert(map.sectors@[index as int] == *self);
                assert(index < SECTOR_NUMBER);
                return Some(index as u8);
            }
            index += 1;
        }
        None
    }

    pub fn size(&self) -> (r: usize)
        requires
            self.start.0 <= self.end.0,
        ensures
            r == self.end.0 - self.start.0,
    {
        (self.end.0 - self.start.0) as usize
    }

    pub fn is_writable(&self) -> (r: bool)
        ensures
            r == self.writable(),
    {
        matches!(self.block, Block::Main)
    }

    pub fn is_in_main_memory_area(&self) -> (r: bool)
        ensures
            r == self.in_main_area(),
    {
        matches!(self.block, Block::Main | Block::Boot)
    }
}

impl Address {
    pub fn is_inside(self, sector: &Sector) -> (r: bool)
        ensures
            r == sector.contains(self.0 as int),
    {
        (self.0 >= sector.start.0) && (self.0 < sector.end.0)
    }

    /// The sector of the internal flash memory map that holds this address.
    pub fn sector(&self) -> (r: Option<Sector>)
        ensures
            r matches Some(s) ==> spec_memory_map().contains(s) && s.contains(self.0 as int),
            r is None ==> forall|i: int|
                0 <= i < spec_memory_map().len() ==> !(#[trigger] spec_memory_map()[i]).contains(self.0 as int),
    {
        let map = memory_map();
        let mut index: usize = 0;
        while index < map.sectors.len()
            invariant
                map.sectors@ == spec_memory_map(),
                0 <= index <= map.sectors.len(),
                forall|k: int| 0 <= k < index ==> !(#[trigger] map.sectors@[k]).contains(self.0 as int),
            decreases map.sectors.len() - index,
        {
            if self.is_inside(&map.sectors[index]) {
                return Some(map.sectors[index]);
            }
            index += 1;
        }
        None
    }
}

impl Range {
    /// Sectors of the internal flash memory map that this range touches.
    pub fn span(self) -> (r: Vec<Sector>)
        ensures
            r@ == spanned(spec_memory_map(), self.0.0 as int, self.1.0 as int),
    {
        let Range(Address(start), Address(end)) = self;
        let map = memory_map();
        let ghost s = spec_memory_map();
        let ghost pred = |x: Sector| x.touches(start as int, end as int);
        let mut span: Vec<Sector> = Vec::new();
        let mut index: usize = 0;
        while index < map.sectors.len()
            invariant
                map.sectors@ == s,
                s == spec_memory_map(),
                pred == (|x: Sector| x.touches(start as int, end as int)),
                0 <= index <= s.len(),
                span@ == s.subrange(0, index as int).filter(pred),
            decreases s.len() - index,
        {
            let sector = map.sectors[index];
            proof {
                assert(s.subrange(0, index + 1).drop_last() =~= s.subrange(0, index as int));
                reveal(Seq::filter);
            }
            if start < end && sector.start.0 < sector.end.0 && sector.start.0 < end && start < sector.end.0 {
                span.push(sector);
            }
            index += 1;
        }
        assert(s.subrange(0, s.len() as int) =~= s);
        span
    }

    /// The range is ascending and overlaps the span of the memory map.
    pub fn is_valid(self) -> (r: bool)
        ensures
            r == (self.0.0 <= self.1.0 && spec_memory_map()[0].start.0 <= self.1.0
                && self.0.0 < spec_memory_map()[SECTOR_NUMBER - 1].end.0),
    {
        let Range(Address(start), Address(end)) = self;
        let map = memory_map();
        let after_map = start >= map.sectors[SECTOR_NUMBER - 1].end.0;
        let before_map = end < map.sectors[0].start.0;
        let monotonic = end >= start;
        monotonic && !before_map && !after_map
    }

    /// Every address of the range lies in a writable sector.
    pub fn is_writable(self) -> (r: bool)
        ensures
            r == range_writable(spec_memory_map(), self.0.0 as int, self.1.0 as int),
    {
        let Range(Address(start), Address(end)) = self;
        let map = memory_map();
        let ghost s = spec_memory_map();
        proof {
            lemma_memory_map_sound();
        }
        if start >= end {
            return true;
        }
        let mut covered_to: u32 = start;
        let mut index: usize = 0;
        while index < map.sectors.len()
            invariant
                map.sectors@ == s,
                s == spec_memory_map(),
                is_ordered(s),
                start == self.0.0 && end == self.1.0,
                0 <= index <= s.len(),
                start <= covered_to < end,
                forall|a: int| start <= a < covered_to ==> #[trigger] writable_address(s, a),
                forall|k: int| 0 <= k < index ==> (#[trigger] s[k]).end.0 <= covered_to,
            decreases s.len() - index,
        {
            let sector = map.sectors[index];
            if sector.end.0 > covered_to {
                if sector.start.0 > covered_to || !sector.is_writable() {
                    proof {
                        lemma_not_writable_at(s, index as int, covered_to as int);
                        assert(start <= covered_to < end);
                    }
                    return false;
                }
                proof {
                    assert forall|a: int| start <= a < sector.end.0 implies #[trigger] writable_address(s, a) by {
                        if a >= covered_to {
                            assert(s[index as int].writable() && s[index as int].contains(a));
                        }
                    }
                }
                let ghost previous = covered_to;
                covered_to = sector.end.0;
                if covered_to >= end {
                    assert forall|a: int| start <= a < end implies #[trigger] writable_address(s, a) by {
                        assert(start <= a < covered_to);
                    }
                    return true;
                }
            }
            index += 1;
        }
        proof {
            lemma_not_writable_at(s, s.len() as int, covered_to as int);
            assert(start <= covered_to < end);
        }
        false
    }
}

/// An address that is past every sector before `index` and that the sector
/// at `index`, if any, either misses or holds without being writable, lies
/// in no writable sector.
proof fn lemma_not_writable_at(s: Seq<Sector>, index: int, a: int)
    requires
        is_ordered(s),
        0 <= index <= s.len(),
        forall|k: int| 0 <= k < index ==> (#[trigger] s[k]).end.0 <= a,
        index < s.len() ==> s[index].end.0 > a,
        index < s.len() ==> s[index].start.0 > a || !s[index].writable(),
    ensures
        !writable_address(s, a),
{
    assert forall|k: int| 0 <= k < s.len() && (#[trigger] s[k]).writable() implies !s[k].contains(a) by {
        if k > index {
            assert(s[index].start.0 <= s[index].end.0);
            assert(s[index].end.0 <= s[k].start.0);
        }
    }
}

/// The first `n` sectors are well formed (`start <= end`), ascending and
/// non overlapping.
pub open spec fn ordered_upto(s: Seq<Sector>, n: int) -> bool {
    &&& forall|i: int| 0 <= i < n ==> (#[trigger] s[i]).start.0 <= s[i].end.0
    &&& forall|i: int, j: int| 0 <= i < j < n ==> (#[trigger] s[i]).end.0 <= (#[trigger] s[j]).start.0
}

/// Among the first `n` sectors, those of the main area (boot and main
/// blocks) form one run without gaps.
pub open spec fn main_area_contiguous_upto(s: Seq<Sector>, n: int) -> bool {
    &&& forall|i: int, j: int|
        0 <= i && i + 1 == j && j < n && (#[trigger] s[i]).in_main_area() && (#[trigger] s[j]).in_main_area()
            ==> s[i].end.0 == s[j].start.0
    &&& forall|i: int, k: int, j: int|
        0 <= i < k < j < n && (#[trigger] s[i]).in_main_area() && (#[trigger] s[j]).in_main_area()
            ==> (#[trigger] s[k]).in_main_area()
}

pub open spec fn is_ordered(s: Seq<Sector>) -> bool {
    ordered_upto(s, s.len() as int)
}

/// A memory map is sound when its sectors are ordered, non overlapping,
/// and its main area is contiguous.
pub open spec fn is_sound_map(s: Seq<Sector>) -> bool {
    ordered_upto(s, s.len() as int) && main_area_contiguous_upto(s, s.len() as int)
}

/// Address `a` lies in a writable sector of the map.
pub open spec fn writable_address(s: Seq<Sector>, a: int) -> bool {
    exists|i: int| 0 <= i < s.len() && (#[trigger] s[i]).writable() && s[i].contains(a)
}

/// Every address of `[start, end)` lies in a writable sector.
pub open spec fn range_writable(s: Seq<Sector>, start: int, end: int) -> bool {
    forall|a: int| start <= a < end ==> #[trigger] writable_address(s, a)
}

/// The sectors that the range `[start, end)` touches, in map order.
pub open spec fn spanned(s: Seq<Sector>, start: int, end: int) -> Seq<Sector> {
    s.filter(|x: Sector| x.touches(start, end))
}

/// In an ordered map, an address lies in at most one sector.
pub proof fn lemma_unique_sector(s: Seq<Sector>, i: int, j: int, a: int)
    requires
        is_ordered(s),
        0 <= i < s.len(),
        0 <= j < s.len(),
        s[i].contains(a),
        s[j].contains(a),
    ensures
        i == j,
{
}

impl MemoryMap {
    /// Checks that the sectors are ordered, non overlapping, and that the
    /// main area is contiguous.
    pub fn is_sound(&self) -> (r: bool)
        ensures
            r == is_sound_map(self.sectors@),
    {
        let ghost s = self.sectors@;
        let n = self.sectors.len();
        let mut last_main: Option<usize> = None;
        let mut index: usize = 0;
        while index < n
            invariant
                s == self.sectors@,
                n == s.len(),
                0 <= index <= n,
                ordered_upto(s, index as int),
                main_area_contiguous_upto(s, index as int),
                last_main matches Some(k) ==> k < index && (#[trigger] s[k as int]).in_main_area()
                    && forall|m: int| k < m < index ==> !(#[trigger] s[m]).in_main_area(),
                last_main is None ==> forall|m: int| 0 <= m < index ==> !(#[trigger] s[m]).in_main_area(),
            decreases n - index,
        {
            let sector = self.sectors[index];
            if sector.start.0 > sector.end.0 {
                assert(!(s[index as int].start.0 <= s[index as int].end.0));
                return false;
            }
            if index > 0 && self.sectors[index - 1].end.0 > sector.start.0 {
                assert(!(s[index - 1].end.0 <= s[index as int].start.0));
                return false;
            }
            if sector.is_in_main_memory_area() {
                match last_main {
                    Some(k) => {
                        if k + 1 != index {
                            assert(s[k as int].in_main_area() && s[index as int].in_main_area());
                            assert(!s[index - 1].in_main_area());
                            return false;
                        }
                        if self.sectors[k].end.0 != sector.start.0 {
                            assert(s[k as int].in_main_area() && s[index as int].in_main_area());
                            return false;
                        }
                    },
                    None => {},
                }
                last_main = Some(index);
            }
            proof {
                let i = index as int;
                assert forall|a: int, b: int| 0 <= a < b < i + 1 implies (#[trigger] s[a]).end.0 <= (#[trigger] s[b]).start.0 by {
                    if b == i && a < i - 1 {
                        assert(s[a].end.0 <= s[i - 1].start.0);
                        assert(s[i - 1].start.0 <= s[i - 1].end.0);
                    }
                }
            }
            index += 1;
        }
        true
    }
}

/// Sector `k` of the internal flash memory map.
#[verifier::opaque]
pub open spec fn memory_map_sector(k: int) -> Sector {
    if k == 0 {
        Sector { block: Block::Boot, start: Address(0x0800_0000), end: Address(0x0800_4000) }
    } else if k == 1 {
        Sector { block: Block::Boot, start: Address(0x0800_4000), end: Address(0x0800_8000) }
    } else if k == 2 {
        Sector { block: Block::Boot, start: Address(0x0800_8000), end: Address(0x0800_C000) }
    } else if k == 3 {
        Sector { block: Block::Boot, start: Address(0x0800_C000), end: Address(0x0801_0000) }
    } else if k == 4 {
        Sector { block: Block::Main, start: Address(0x0801_0000), end: Address(0x0802_0000) }
    } else if k == 5 {
        Sector { block: Block::Main, start: Address(0x0802_0000), end: Address(0x0804_0000) }
    } else if k == 6 {
        Sector { block: Block::Main, start: Address(0x0804_0000), end: Address(0x0806_0000) }
    } else if k == 7 {
        Sector { block: Block::Main, start: Address(0x0806_0000), end: Address(0x0808_0000) }
    } else if k == 8 {
        Sector { block: Block::Main, start: Address(0x0808_0000), end: Address(0x080A_0000) }
    } else if k == 9 {
        Sector { block: Block::Main, start: Address(0x080A_0000), end: Address(0x080C_0000) }
    } else if k == 10 {
        Sector { block: Block::Main, start: Address(0x080C_0000), end: Address(0x080E_0000) }
    } else if k == 11 {
        Sector { block: Block::Main, start: Address(0x080E_0000), end: Address(0x0810_0000) }
    } else if k == 12 {
        Sector { block: Block::SystemMemory, start: Address(0x1FFF_0000), end: Address(0x1FFF_7800) }
    } else if k == 13 {
        Sector { block: Block::OneTimeProgrammable, start: Address(0x1FFF_7800), end: Address(0x1FFF_7A0F) }
    } else {
        Sector { block: Block::OptionBytes, start: Address(0x1FFF_C000), end: Address(0x1FFF_C010) }
    }
}

/// The memory map of the internal flash.
pub open spec fn spec_memory_map() -> Seq<Sector> {
    Seq::new(SECTOR_NUMBER as nat, |k: int| memory_map_sector(k))
}

/// Builds the memory map of the internal flash.
pub fn memory_map() -> (m: MemoryMap)
    ensures
        m.sectors@ == spec_memory_map(),
{
    let mut sectors: Vec<Sector> = Vec::new();
    reveal(memory_map_sector);
    sectors.push(Sector::new(Block::Boot, 0x0800_0000, 0x0800_4000));
    sectors.push(Sector::new(Block::Boot, 0x0800_4000, 0x0800_8000));
    sectors.push(Sector::new(Block::Boot, 0x0800_8000, 0x0800_C000));
    sectors.push(Sector::new(Block::Boot, 0x0800_C000, 0x0801_0000));
    sectors.push(Sector::new(Block::Main, 0x0801_0000, 0x0802_0000));
    sectors.push(Sector::new(Block::Main, 0x0802_0000, 0x0804_0000));
    sectors.push(Sector::new(Block::Main, 0x0804_0000, 0x0806_0000));
    sectors.push(Sector::new(Block::Main, 0x0806_0000, 0x0808_0000));
    sectors.push(Sector::new(Block::Main, 0x0808_0000, 0x080A_0000));
    sectors.push(Sector::new(Block::Main, 0x080A_0000, 0x080C_0000));
    sectors.push(Sector::new(Block::Main, 0x080C_0000, 0x080E_0000));
    sectors.push(Sector::new(Block::Main, 0x080E_0000, 0x0810_0000));
    sectors.push(Sector::new(Block::SystemMemory, 0x1FFF_0000, 0x1FFF_7800));
    sectors.push(Sector::new(Block::OneTimeProgrammable, 0x1FFF_7800, 0x1FFF_7A0F));
    sectors.push(Sector::new(Block::OptionBytes, 0x1FFF_C000, 0x1FFF_C010));
    assert(sectors@ =~= spec_memory_map());
    MemoryMap { sectors }
}

/// Facts on sector `k` of the internal flash memory map and its successor.
pub open spec fn map_sector_facts(k: int) -> bool {
    &&& memory_map_sector(k).start.0 < memory_map_sector(k).end.0
    &&& k + 1 < 15 ==> memory_map_sector(k).end.0 <= memory_map_sector(k + 1).start.0
    &&& (k + 1 < 15 && memory_map_sector(k).in_main_area() && memory_map_sector(k + 1).in_main_area())
        ==> memory_map_sector(k).end.0 == memory_map_sector(k + 1).start.0
    &&& memory_map_sector(k).in_main_area() <==> k < 12
    &&& memory_map_sector(k).writable() <==> 4 <= k < 12
    &&& memory_map_sector(k).in_main_area() ==> FLASH_START <= memory_map_sector(k).start.0
        && memory_map_sector(k).end.0 <= FLASH_END && memory_map_sector(k).end.0 % 4 == 0
}

proof fn lemma_map_sector_facts()
    ensures
        forall|k: int| 0 <= k < 15 ==> #[trigger] map_sector_facts(k),
{
    reveal(memory_map_sector);
    assert forall|k: int| 0 <= k < 15 implies #[trigger] map_sector_facts(k) by {
        assert(k == 0 || k == 1 || k == 2 || k == 3 || k == 4 || k == 5 || k == 6 || k == 7 || k == 8 || k == 9 || k == 10 || k == 11 || k == 12 || k == 13 || k == 14);
    }
}

/// The internal flash memory map is sound.
pub proof fn lemma_memory_map_sound()
    ensures
        is_sound_map(spec_memory_map()),
        spec_memory_map().len() == SECTOR_NUMBER,
{
    let s = spec_memory_map();
    lemma_map_sector_facts();
    assert forall|i: int| 0 <= i < 15 implies (#[trigger] s[i]).start.0 < s[i].end.0 by {
        assert(map_sector_facts(i));
    }
    assert forall|i: int, j: int| 0 <= i < j < 15 implies (#[trigger] s[i]).end.0 <= (#[trigger] s[j]).start.0 by {
        lemma_map_ascending(i, j);
    }
    assert forall|i: int, j: int|
        0 <= i && i + 1 == j && j < 15 && (#[trigger] s[i]).in_main_area() && (#[trigger] s[j]).in_main_area()
        implies s[i].end.0 == s[j].start.0 by {
        assert(map_sector_facts(i));
    }
    assert forall|i: int, k: int, j: int|
        0 <= i < k < j < 15 && (#[trigger] s[i]).in_main_area() && (#[trigger] s[j]).in_main_area()
        implies (#[trigger] s[k]).in_main_area() by {
        assert(map_sector_facts(j));
        assert(map_sector_facts(k));
    }
}

/// Main area sectors of the internal flash lie in the main memory area and
/// end on a word boundary.
pub proof fn lemma_main_sector_bounds()
    ensures
        forall|k: int| 0 <= k < SECTOR_NUMBER && (#[trigger] spec_memory_map()[k]).in_main_area()
            ==> k < 12 && FLASH_START <= spec_memory_map()[k].start.0 && spec_memory_map()[k].end.0 <= FLASH_END
                && spec_memory_map()[k].end.0 % 4 == 0,
        forall|k: int| 0 <= k < 12 ==> (#[trigger] spec_memory_map()[k]).in_main_area()
            && spec_memory_map()[k].start.0 < spec_memory_map()[k].end.0,
        forall|k: int| 0 <= k < SECTOR_NUMBER ==> (#[trigger] spec_memory_map()[k]).start.0
            < spec_memory_map()[k].end.0,
{
    lemma_map_sector_facts();
    assert forall|k: int| 0 <= k < 12 implies (#[trigger] spec_memory_map()[k]).in_main_area()
        && spec_memory_map()[k].start.0 < spec_memory_map()[k].end.0 by {
        assert(map_sector_facts(k));
    }
    assert forall|k: int| 0 <= k < SECTOR_NUMBER implies (#[trigger] spec_memory_map()[k]).start.0
        < spec_memory_map()[k].end.0 by {
        assert(map_sector_facts(k));
    }
    assert forall|k: int| 0 <= k < SECTOR_NUMBER && (#[trigger] spec_memory_map()[k]).in_main_area()
        implies k < 12 && FLASH_START <= spec_memory_map()[k].start.0 && spec_memory_map()[k].end.0 <= FLASH_END
            && spec_memory_map()[k].end.0 % 4 == 0 by {
        assert(map_sector_facts(k));
    }
}

/// The writable sectors of the internal flash are sectors 4 to 11, which
/// follow one another.
pub proof fn lemma_writable_sectors()
    ensures
        forall|k: int| 0 <= k < SECTOR_NUMBER ==> ((#[trigger] spec_memory_map()[k]).writable() <==> 4 <= k < 12),
        forall|k: int| 4 < k < 12 ==> #[trigger] spec_memory_map()[k].start.0 == spec_memory_map()[k - 1].end.0,
        is_sound_map(spec_memory_map()),
        spec_memory_map()[4].start.0 == 0x0801_0000,
        spec_memory_map()[11].end.0 == 0x0810_0000,
{
    reveal(memory_map_sector);
    lemma_map_sector_facts();
    lemma_memory_map_sound();
    assert forall|k: int| 0 <= k < SECTOR_NUMBER implies ((#[trigger] spec_memory_map()[k]).writable() <==> 4 <= k < 12) by {
        assert(map_sector_facts(k));
    }
    assert forall|k: int| 4 < k < 12 implies #[trigger] spec_memory_map()[k].start.0 == spec_memory_map()[k - 1].end.0 by {
        assert(map_sector_facts(k - 1));
    }
}

/// Every address from the start of sector 4 to the end of sector `j` is
/// writable.
proof fn lemma_writable_prefix(j: int, a: int)
    requires
        4 <= j < 12,
        spec_memory_map()[4].start.0 <= a < spec_memory_map()[j].end.0,
    ensures
        writable_address(spec_memory_map(), a),
    decreases j,
{
    lemma_writable_sectors();
    let s = spec_memory_map();
    if a >= s[j].start.0 {
        assert(s[j].writable() && s[j].contains(a));
    } else {
        lemma_writable_prefix(j - 1, a);
    }
}

/// The writable area of the internal flash is one range.
pub fn writable_range() -> (r: (Address, Address))
    ensures
        range_writable(spec_memory_map(), r.0.0 as int, r.1.0 as int),
        forall|a: int| #[trigger] writable_address(spec_memory_map(), a) ==> r.0.0 <= a < r.1.0,
        r.0.0 == 0x0801_0000,
        r.1.0 == 0x0810_0000,
{
    proof {
        lemma_writable_sectors();
    }
    let map = memory_map();
    let ghost s = spec_memory_map();
    let mut first: usize = 0;
    while first < map.sectors.len() && !map.sectors[first].is_writable()
        invariant
            map.sectors@ == s,
            s == spec_memory_map(),
            0 <= first <= 4,
            forall|k: int| 0 <= k < SECTOR_NUMBER ==> ((#[trigger] s[k]).writable() <==> 4 <= k < 12),
        decreases 15 - first,
    {
        first += 1;
    }
    let mut last: usize = first;
    while last + 1 < map.sectors.len() && map.sectors[last + 1].is_writable()
        invariant
            map.sectors@ == s,
            s == spec_memory_map(),
            first == 4,
            4 <= last <= 11,
            forall|k: int| 0 <= k < SECTOR_NUMBER ==> ((#[trigger] s[k]).writable() <==> 4 <= k < 12),
        decreases 15 - last,
    {
        last += 1;
    }
    proof {
        assert(last == 11);
        assert forall|a: int| s[4].start.0 <= a < s[11].end.0 implies #[trigger] writable_address(s, a) by {
            lemma_writable_prefix(11, a);
        }
        assert forall|a: int| #[trigger] writable_address(s, a) implies s[4].start.0 <= a < s[11].end.0 by {
            let k = choose|k: int| 0 <= k < s.len() && (#[trigger] s[k]).writable() && s[k].contains(a);
            if k > 4 {
                assert(s[4].end.0 <= s[k].start.0);
            }
            if k < 11 {
                assert(s[k].end.0 <= s[11].start.0);
                assert(s[11].start.0 <= s[11].end.0);
            }
        }
    }
    (map.sectors[first].start, map.sectors[last].end)
}

/// The index of the sector of the internal flash that holds address `a`.
pub open spec fn sector_index_of(a: int) -> int {
    choose|i: int| 0 <= i < SECTOR_NUMBER && (#[trigger] spec_memory_map()[i]).contains(a)
}

proof fn lemma_map_ascending(i: int, j: int)
    requires
        0 <= i < j < 15,
    ensures
        memory_map_sector(i).end.0 <= memory_map_sector(j).start.0,
    decreases j - i,
{
    lemma_map_sector_facts();
    assert(map_sector_facts(i));
    if i + 1 < j {
        assert(map_sector_facts(i + 1));
        lemma_map_ascending(i + 1, j);
    }
}

} // verus!
