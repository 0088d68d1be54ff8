//! Bank layout of the STM32F412 discovery board: one bootable bank in the
//! MCU flash, a staging bank and a golden bank in the external flash, all of
//! one image size.

use crate::boot_manager::catalog_is_sound;
use crate::image::Bank;
use crate::micron;
use crate::sector_map::{self, writable_range};
use vstd::prelude::*;

verus! {

pub const MCU_NUMBER_OF_BANKS: usize = 1;

pub const EXTERNAL_NUMBER_OF_BANKS: usize = 2;

pub open spec fn spec_min(a: int, b: int) -> int {
    if a < b {
        a
    } else {
        b
    }
}

pub fn min(a: usize, b: usize) -> (r: usize)
    ensures
        r == spec_min(a as int, b as int),
{
    if a < b {
        a
    } else {
        b
    }
}

/// Size of every bank: the share of the writable MCU area of one MCU bank,
/// or of the external memory of one external bank, whichever is smaller.
pub fn image_size() -> (r: usize)
    ensures
        r == spec_min(
            (0x0810_0000 - 0x0801_0000) / MCU_NUMBER_OF_BANKS as int,
            (micron::MEMORY_END - micron::MEMORY_START) / EXTERNAL_NUMBER_OF_BANKS as int,
        ),
{
    let (start, end) = writable_range();
    let mcu_total = (end.0 - start.0) as usize;
    let external_total = (micron::MEMORY_END - micron::MEMORY_START) as usize;
    min(mcu_total / MCU_NUMBER_OF_BANKS, external_total / EXTERNAL_NUMBER_OF_BANKS)
}

/// Location of MCU bank `index`.
pub fn mcu_image_offset(index: usize) -> (r: sector_map::Address)
    requires
        index < MCU_NUMBER_OF_BANKS,
    ensures
        r.0 == 0x0801_0000 + index * 0xF_0000,
{
    let size = image_size();
    sector_map::Address(0x0801_0000 + (index * size) as u32)
}

/// Location of external bank `index`.
pub fn external_image_offset(index: usize) -> (r: micron::Address)
    requires
        index < EXTERNAL_NUMBER_OF_BANKS,
    ensures
        r.0 == micron::MEMORY_START + index * 0xF_0000,
{
    let size = image_size();
    micron::Address(micron::MEMORY_START + (index * size) as u32)
}

/// The banks of the MCU flash.
pub fn mcu_banks() -> (r: Vec<Bank<sector_map::Address>>)
    ensures
        r@.len() == MCU_NUMBER_OF_BANKS,
        r@[0] == (Bank { index: 1, bootable: true, location: sector_map::Address(0x0801_0000), size: 0xF_0000usize, is_golden: false }),
{
    let mut banks: Vec<Bank<sector_map::Address>> = Vec::new();
    banks.push(Bank { index: 1, bootable: true, location: mcu_image_offset(0), size: image_size(), is_golden: false });
    banks
}

/// The banks of the external flash: a staging bank, then the golden bank.
pub fn external_banks() -> (r: Vec<Bank<micron::Address>>)
    ensures
        r@.len() == EXTERNAL_NUMBER_OF_BANKS,
        r@[0] == (Bank { index: 2, bootable: false, location: micron::Address(0), size: 0xF_0000usize, is_golden: false }),
        r@[1] == (Bank { index: 3, bootable: false, location: micron::Address(0xF_0000), size: 0xF_0000usize, is_golden: true }),
{
    let mut banks: Vec<Bank<micron::Address>> = Vec::new();
    banks.push(Bank { index: 2, bootable: false, location: external_image_offset(0), size: image_size(), is_golden: false });
    banks.push(Bank { index: 3, bootable: false, location: external_image_offset(1), size: image_size(), is_golden: true });
    banks
}

/// A bank as the configuration describes it.
#[derive(Copy, Clone, Debug, PartialEq, Eq, Structural)]
pub struct BankConfiguration {
    pub start_address: u32,
    pub size_kb: u32,
}

/// The bank that entry `i` of a configuration becomes.
pub open spec fn configured_bank<A>(
    config: BankConfiguration,
    index: int,
    bootable: bool,
    golden: bool,
    location: A,
) -> Bank<A> {
    Bank { index: index as u8, bootable, location, size: (config.size_kb * 1024) as usize, is_golden: golden }
}

/// The MCU banks of a configuration: indices count from `base_index`, the
/// bank at position `bootable_index` is bootable and the one at position
/// `golden_index` golden.
pub fn generate_mcu_banks(
    base_index: usize,
    configs: &Vec<BankConfiguration>,
    bootable_index: Option<usize>,
    golden_index: Option<usize>,
) -> (r: Vec<Bank<sector_map::Address>>)
    requires
        base_index + configs@.len() <= 256,
        forall|i: int| 0 <= i < configs@.len() ==> (#[trigger] configs@[i]).size_kb * 1024 <= usize::MAX,
    ensures
        r@.len() == configs@.len(),
        forall|i: int|
            0 <= i < configs@.len() ==> #[trigger] r@[i] == configured_bank(
                configs@[i],
                i + base_index,
                bootable_index == Some(i as usize),
                golden_index == Some(i as usize),
                sector_map::Address(configs@[i].start_address),
            ),
{
    let mut banks: Vec<Bank<sector_map::Address>> = Vec::new();
    let mut i: usize = 0;
    while i < configs.len()
        invariant
            0 <= i <= configs@.len(),
            base_index + configs@.len() <= 256,
            forall|k: int| 0 <= k < configs@.len() ==> (#[trigger] configs@[k]).size_kb * 1024 <= usize::MAX,
            banks@.len() == i,
            forall|k: int|
                0 <= k < i ==> #[trigger] banks@[k] == configured_bank(
                    configs@[k],
                    k + base_index,
                    bootable_index == Some(k as usize),
                    golden_index == Some(k as usize),
                    sector_map::Address(configs@[k].start_address),
                ),
        decreases configs@.len() - i,
    {
        let config = configs[i];
        let bootable = match bootable_index {
            Some(b) => b == i,
            None => false,
        };
        let golden = match golden_index {
            Some(g) => g == i,
            None => false,
        };
        let size = config.size_kb as usize * 1024;
        banks.push(Bank {
            index: (i + base_index) as u8,
            bootable,
            location: sector_map::Address(config.start_address),
            size,
            is_golden: golden,
        });
        i += 1;
    }
    banks
}

/// The external banks of a configuration: none is bootable, indices count
/// from `base_index`, and the bank whose index is `golden_index` is golden.
pub fn generate_external_banks(base_index: usize, configs: &Vec<BankConfiguration>, golden_index: Option<usize>) -> (r: Vec<
    Bank<micron::Address>,
>)
    requires
        base_index + configs@.len() <= 256,
        forall|i: int| 0 <= i < configs@.len() ==> (#[trigger] configs@[i]).size_kb * 1024 <= usize::MAX,
    ensures
        r@.len() == configs@.len(),
        forall|i: int|
            0 <= i < configs@.len() ==> #[trigger] r@[i] == configured_bank(
                configs@[i],
                i + base_index,
                false,
                golden_index == Some((i + base_index) as usize),
                micron::Address(configs@[i].start_address),
            ),
{
    let mut banks: Vec<Bank<micron::Address>> = Vec::new();
    let mut i: usize = 0;
    while i < configs.len()
        invariant
            0 <= i <= configs@.len(),
            base_index + configs@.len() <= 256,
            forall|k: int| 0 <= k < configs@.len() ==> (#[trigger] configs@[k]).size_kb * 1024 <= usize::MAX,
            banks@.len() == i,
            forall|k: int|
                0 <= k < i ==> #[trigger] banks@[k] == configured_bank(
                    configs@[k],
                    k + base_index,
                    false,
                    golden_index == Some((k + base_index) as usize),
                    micron::Address(configs@[k].start_address),
                ),
        decreases configs@.len() - i,
    {
        let config = configs[i];
        let golden = match golden_index {
            Some(g) => g == i + base_index,
            None => false,
        };
        let size = config.size_kb as usize * 1024;
        banks.push(Bank {
            index: (i + base_index) as u8,
            bootable: false,
            location: micron::Address(config.start_address),
            size,
            is_golden: golden,
        });
        i += 1;
    }
    banks
}

/// The layout is a sound bank catalog.
pub proof fn lemma_layout_is_sound(mcu: Seq<Bank<sector_map::Address>>, external: Seq<Bank<micron::Address>>)
    requires
        mcu.len() == MCU_NUMBER_OF_BANKS,
        mcu[0] == (Bank { index: 1, bootable: true, location: sector_map::Address(0x0801_0000), size: 0xF_0000usize, is_golden: false }),
        external.len() == EXTERNAL_NUMBER_OF_BANKS,
        external[0] == (Bank { index: 2, bootable: false, location: micron::Address(0), size: 0xF_0000usize, is_golden: false }),
        external[1] == (Bank { index: 3, bootable: false, location: micron::Address(0xF_0000), size: 0xF_0000usize, is_golden: true }),
    ensures
        catalog_is_sound(mcu, external),
{
}

} // verus!
