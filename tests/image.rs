use loadstone::error::Error;
use loadstone::image::{
    check_checksum, encode_image, image_length, signed_image_length, verify_image, verify_signed_image, ImageVerifier,
};
use p256::ecdsa::signature::Signer;

#[test]
fn encoded_image_verifies() {
    let payload: Vec<u8> = (0..200u32).map(|i| (i * 31 + 5) as u8).collect();
    let mut bank = encode_image(&payload);
    bank.extend_from_slice(&[0xFF; 64]);
    assert_eq!(verify_image(&bank), Ok(200));
}

#[test]
fn checksum_is_crc32_of_the_payload() {
    let image = encode_image(b"123456789");
    assert_eq!(&image[0..4], &[9, 0, 0, 0]);
    assert_eq!(&image[4..13], b"123456789");
    assert_eq!(&image[13..17], &0xCBF4_3926u32.to_le_bytes());
}

#[test]
fn flipping_any_payload_bit_invalidates() {
    let payload: Vec<u8> = (0..16u8).collect();
    let image = encode_image(&payload);
    for byte in 4..4 + payload.len() {
        for bit in 0..8 {
            let mut corrupted = image.clone();
            corrupted[byte] ^= 1 << bit;
            assert_eq!(verify_image(&corrupted), Err(Error::CrcInvalid));
        }
    }
}

#[test]
fn flipping_a_checksum_bit_invalidates() {
    let mut image = encode_image(&[1, 2, 3]);
    let last = image.len() - 1;
    image[last] ^= 0x80;
    assert_eq!(verify_image(&image), Err(Error::CrcInvalid));
}

#[test]
fn declared_length_beyond_the_bank_is_too_big() {
    let mut image = encode_image(&[1, 2, 3, 4]);
    image[0] = 5;
    assert_eq!(verify_image(&image), Err(Error::ImageTooBig));
    assert_eq!(image_length(&[100, 0, 0, 0, 1, 2, 3, 4, 5, 6]), Err(Error::ImageTooBig));
}

#[test]
fn erased_bank_is_empty() {
    assert_eq!(verify_image(&[0xFF; 32]), Err(Error::BankEmpty));
}

#[test]
fn short_bank_lacks_data() {
    assert_eq!(verify_image(&[0, 0, 0, 0, 0, 0, 0]), Err(Error::NotEnoughData));
    assert_eq!(verify_image(&[]), Err(Error::NotEnoughData));
}

#[test]
fn empty_payload_verifies() {
    let image = encode_image(&[]);
    assert_eq!(image.len(), 8);
    assert_eq!(verify_image(&image), Ok(0));
}

#[test]
fn stored_checksum_is_compared_with_the_given_one() {
    let bytes = [2, 0, 0, 0, 7, 7, 0x44, 0x33, 0x22, 0x11];
    assert_eq!(check_checksum(&bytes, 2, 0x1122_3344), Ok(2));
    assert_eq!(check_checksum(&bytes, 2, 0x1122_3345), Err(Error::CrcInvalid));
}

fn signed(payload: &[u8], seed: u8) -> (Vec<u8>, Vec<u8>) {
    let signing = p256::ecdsa::SigningKey::from_slice(&[seed; 32]).unwrap();
    let public_key = signing.verifying_key().to_encoded_point(false).as_bytes().to_vec();
    let signature: p256::ecdsa::Signature = signing.sign(payload);
    let mut image = (payload.len() as u32).to_le_bytes().to_vec();
    image.extend_from_slice(payload);
    image.extend_from_slice(&signature.to_bytes());
    (image, public_key)
}

#[test]
fn signed_image_verifies_under_its_key() {
    let (mut image, key) = signed(b"firmware", 3);
    image.extend_from_slice(&[0xFF; 10]);
    assert_eq!(verify_signed_image(&image, &key), Ok(8));
    assert_eq!(ImageVerifier::Signature { public_key: key }.verify(&image), Ok(8));
}

#[test]
fn signed_image_fails_under_another_key_or_when_altered() {
    let (image, key) = signed(b"firmware", 3);
    let (_, other) = signed(b"firmware", 4);
    assert_eq!(verify_signed_image(&image, &other), Err(Error::SignatureInvalid));
    let mut altered = image.clone();
    altered[5] ^= 0x10;
    assert_eq!(verify_signed_image(&altered, &key), Err(Error::SignatureInvalid));
    assert_eq!(verify_signed_image(&image, &[1, 2, 3]), Err(Error::SignatureInvalid));
}

#[test]
fn oversized_signed_image_is_refused_before_the_digest() {
    let (mut image, key) = signed(b"firmware", 3);
    image[0] = 200;
    assert_eq!(verify_signed_image(&image, &key), Err(Error::ImageTooBig));
    assert_eq!(signed_image_length(&[0xFF; 70]), Err(Error::BankEmpty));
    assert_eq!(signed_image_length(&[0; 10]), Err(Error::NotEnoughData));
}

#[test]
fn checksum_strategy_is_the_crc_check() {
    let image = encode_image(&[4, 5, 6]);
    assert_eq!(ImageVerifier::Checksum.verify(&image), Ok(3));
}
