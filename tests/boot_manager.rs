use loadstone::boot_manager::{announce, check_catalog, BootManager, BootOutcome};
use loadstone::error::Error;
use loadstone::flash::ReadWrite;
use loadstone::image::{encode_image, Bank, ImageVerifier};
use loadstone::mcu_flash::McuFlash;
use loadstone::micron;
use loadstone::mock::{RamFlash, RetainedSignal, SimulatedFlash, TextSink};
use loadstone::sector_map::Address;
use loadstone::update_signal::UpdateSignal;
use p256::ecdsa::signature::Signer;

const BANK_SIZE: usize = 0x2_0000;
const PRIMARY: u32 = 0x0802_0000;

type Manager = BootManager<McuFlash<SimulatedFlash>, RamFlash, RetainedSignal>;

fn mcu_banks() -> Vec<Bank<Address>> {
    vec![Bank { index: 1, bootable: true, location: Address(PRIMARY), size: BANK_SIZE, is_golden: false }]
}

fn external_banks() -> Vec<Bank<micron::Address>> {
    vec![
        Bank { index: 2, bootable: false, location: micron::Address(0), size: BANK_SIZE, is_golden: false },
        Bank {
            index: 3,
            bootable: false,
            location: micron::Address(BANK_SIZE as u32),
            size: BANK_SIZE,
            is_golden: true,
        },
    ]
}

fn bank_image(payload: &[u8]) -> Vec<u8> {
    let mut image = encode_image(payload);
    image.resize(BANK_SIZE, 0xFF);
    image
}

fn manager(signal: UpdateSignal) -> Manager {
    let mcu = McuFlash::new(SimulatedFlash::new(2)).ok().unwrap();
    let external = RamFlash::new(2 * BANK_SIZE);
    BootManager::new(mcu, external, mcu_banks(), external_banks(), Some(RetainedSignal { signal }), ImageVerifier::Checksum, true)
        .ok()
        .unwrap()
}

fn read_mcu(manager: &mut Manager, address: u32, len: usize) -> Vec<u8> {
    let mut bytes = vec![0u8; len];
    ReadWrite::read(&mut manager.mcu_flash, Address(address), &mut bytes).unwrap();
    bytes
}

fn read_external(manager: &mut Manager, address: u32, len: usize) -> Vec<u8> {
    let mut bytes = vec![0u8; len];
    manager.external_flash.read(micron::Address(address), &mut bytes).unwrap();
    bytes
}

#[test]
fn valid_bootable_bank_is_handed_off_without_writes() {
    let mut manager = manager(UpdateSignal::Stable);
    ReadWrite::write(&mut manager.mcu_flash, Address(PRIMARY), &bank_image(b"application")).unwrap();
    let outcome = manager.boot();
    assert_eq!(outcome, BootOutcome::HandingOff { index: 1, address: PRIMARY });
    assert_eq!(manager.restore_copies, 0);
}

#[test]
fn invalid_bootable_bank_is_restored_from_golden() {
    let mut manager = manager(UpdateSignal::Stable);
    let golden = bank_image(b"golden image");
    manager.external_flash.write(micron::Address(BANK_SIZE as u32), &golden).unwrap();
    let outcome = manager.boot();
    assert_eq!(outcome, BootOutcome::HandingOff { index: 1, address: PRIMARY });
    assert_eq!(manager.restore_copies, 1);
    assert_eq!(read_mcu(&mut manager, PRIMARY, BANK_SIZE), golden);
    // A second failure in the same cycle is fatal, without a further copy.
    let again = manager.restore();
    assert_eq!(again, BootOutcome::Fatal(Error::FlashCorrupted));
    assert_eq!(manager.restore_copies, 1);
}

#[test]
fn corrupted_golden_image_ends_fatal_after_one_copy() {
    let mut manager = manager(UpdateSignal::Stable);
    let mut golden = bank_image(b"golden image");
    golden[6] ^= 0x01;
    manager.external_flash.write(micron::Address(BANK_SIZE as u32), &golden).unwrap();
    let outcome = manager.boot();
    assert_eq!(outcome, BootOutcome::Fatal(Error::FlashCorrupted));
    assert_eq!(manager.restore_copies, 1);
}

#[test]
fn no_golden_bank_is_fatal() {
    let mcu = McuFlash::new(SimulatedFlash::new(0)).ok().unwrap();
    let external = RamFlash::new(2 * BANK_SIZE);
    let mut banks = external_banks();
    banks[1].is_golden = false;
    let mut manager: Manager =
        BootManager::new(mcu, external, mcu_banks(), banks, None, ImageVerifier::Checksum, true).ok().unwrap();
    assert_eq!(manager.boot(), BootOutcome::Fatal(Error::NoImageToRestoreFrom));
    assert_eq!(manager.restore_copies, 0);
}

#[test]
fn recovery_disabled_is_fatal_without_copy() {
    let mcu = McuFlash::new(SimulatedFlash::new(0)).ok().unwrap();
    let external = RamFlash::new(2 * BANK_SIZE);
    let mut manager: Manager =
        BootManager::new(mcu, external, mcu_banks(), external_banks(), None, ImageVerifier::Checksum, false).ok().unwrap();
    manager.external_flash.write(micron::Address(BANK_SIZE as u32), &bank_image(b"golden")).unwrap();
    assert_eq!(manager.boot(), BootOutcome::Fatal(Error::NoImageToRestoreFrom));
    assert_eq!(manager.restore_copies, 0);
}

#[test]
fn requested_update_copies_the_staged_image() {
    let mut manager = manager(UpdateSignal::UpdateRequested);
    ReadWrite::write(&mut manager.mcu_flash, Address(PRIMARY), &bank_image(b"old application")).unwrap();
    let staged = bank_image(b"new application, version two");
    manager.external_flash.write(micron::Address(0), &staged).unwrap();
    let outcome = manager.boot();
    assert_eq!(outcome, BootOutcome::HandingOff { index: 1, address: PRIMARY });
    assert_eq!(read_mcu(&mut manager, PRIMARY, BANK_SIZE), read_external(&mut manager, 0, BANK_SIZE));
    assert_eq!(manager.update_signal.as_ref().unwrap().signal, UpdateSignal::Stable);
    assert_eq!(manager.restore_copies, 0);
}

#[test]
fn requested_restore_overwrites_a_valid_bank() {
    let mut manager = manager(UpdateSignal::RestoreRequested);
    ReadWrite::write(&mut manager.mcu_flash, Address(PRIMARY), &bank_image(b"running")).unwrap();
    let golden = bank_image(b"factory");
    manager.external_flash.write(micron::Address(BANK_SIZE as u32), &golden).unwrap();
    assert_eq!(manager.boot(), BootOutcome::HandingOff { index: 1, address: PRIMARY });
    assert_eq!(read_mcu(&mut manager, PRIMARY, BANK_SIZE), golden);
    assert_eq!(manager.update_signal.as_ref().unwrap().signal, UpdateSignal::Stable);
    assert_eq!(manager.restore_copies, 1);
}

#[test]
fn unsound_catalogs_are_refused() {
    let mut two_golden = external_banks();
    two_golden[0].is_golden = true;
    assert!(!check_catalog(&mcu_banks(), &two_golden));
    let mut overlapping = external_banks();
    overlapping[1].location = micron::Address(0x1000);
    assert!(!check_catalog(&mcu_banks(), &overlapping));
    let mut same_index = external_banks();
    same_index[0].index = 1;
    assert!(!check_catalog(&mcu_banks(), &same_index));
    assert!(check_catalog(&mcu_banks(), &external_banks()));
    let mcu = McuFlash::new(SimulatedFlash::new(0)).ok().unwrap();
    let result: Result<Manager, Error> =
        BootManager::new(mcu, RamFlash::new(16), mcu_banks(), same_index, None, ImageVerifier::Checksum, true);
    assert!(matches!(result, Err(Error::ConfigurationError(_))));
}

#[test]
fn signature_strategy_boots_a_signed_bank() {
    let signing = p256::ecdsa::SigningKey::from_slice(&[7u8; 32]).unwrap();
    let public_key = signing.verifying_key().to_encoded_point(false).as_bytes().to_vec();
    let payload = b"signed application";
    let signature: p256::ecdsa::Signature = signing.sign(payload);
    let mut image = (payload.len() as u32).to_le_bytes().to_vec();
    image.extend_from_slice(payload);
    image.extend_from_slice(&signature.to_bytes());
    image.resize(BANK_SIZE, 0xFF);

    let mcu = McuFlash::new(SimulatedFlash::new(1)).ok().unwrap();
    let external = RamFlash::new(2 * BANK_SIZE);
    let verifier = ImageVerifier::Signature { public_key };
    let mut manager: Manager =
        BootManager::new(mcu, external, mcu_banks(), external_banks(), None, verifier, true).ok().unwrap();
    ReadWrite::write(&mut manager.mcu_flash, Address(PRIMARY), &image).unwrap();
    assert_eq!(manager.boot(), BootOutcome::HandingOff { index: 1, address: PRIMARY });
}

#[test]
fn update_without_staging_bank_is_fatal() {
    let mcu = McuFlash::new(SimulatedFlash::new(0)).ok().unwrap();
    let external = RamFlash::new(2 * BANK_SIZE);
    let banks = vec![external_banks()[1]];
    let signal = Some(RetainedSignal { signal: UpdateSignal::UpdateRequested });
    let mut manager: Manager =
        BootManager::new(mcu, external, mcu_banks(), banks, signal, ImageVerifier::Checksum, true).ok().unwrap();
    assert_eq!(manager.boot(), BootOutcome::Fatal(Error::BankInvalid));
    assert_eq!(manager.update_signal.as_ref().unwrap().signal, UpdateSignal::Stable);
}

#[test]
fn golden_bank_out_of_the_device_is_a_device_error() {
    let mcu = McuFlash::new(SimulatedFlash::new(0)).ok().unwrap();
    let external = RamFlash::new(BANK_SIZE);
    let mut manager: Manager =
        BootManager::new(mcu, external, mcu_banks(), external_banks(), None, ImageVerifier::Checksum, true)
            .ok()
            .unwrap();
    assert!(matches!(manager.boot(), BootOutcome::Fatal(Error::DeviceError(_))));
    assert_eq!(manager.restore_copies, 0);
}

#[test]
fn golden_bank_larger_than_the_primary_is_too_big() {
    let mcu = McuFlash::new(SimulatedFlash::new(0)).ok().unwrap();
    let external = RamFlash::new(4 * BANK_SIZE);
    let mut banks = external_banks();
    banks[1].size = 2 * BANK_SIZE;
    let mut manager: Manager =
        BootManager::new(mcu, external, mcu_banks(), banks, None, ImageVerifier::Checksum, true).ok().unwrap();
    assert_eq!(manager.boot(), BootOutcome::Fatal(Error::ImageTooBig));
    assert_eq!(manager.restore_copies, 0);
}

#[test]
fn outcomes_are_announced() {
    let mut serial = TextSink::new();
    announce(&BootOutcome::HandingOff { index: 1, address: PRIMARY }, "Hello", &mut serial);
    announce(&BootOutcome::Fatal(Error::NoImageToRestoreFrom), "Hello", &mut serial);
    assert_eq!(
        serial.chars.iter().collect::<String>(),
        "Hello\n[Logic Error] -> No image to restore from\n"
    );
}
