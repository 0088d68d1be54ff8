//! Firmware banks and the verification of the images they hold. An image is
//! a little endian `u32` payload length, the payload, then an integrity
//! token: the little endian CRC-32 of the payload, or an ECDSA P-256
//! signature of it, depending on the verification strategy.

use crate::error::Error;
use crate::flash::{in_storage, FlashAddress, ReadWrite};
use p256::ecdsa::signature::Verifier;
use vstd::bytes::{
    lemma_auto_spec_u32_to_from_le_bytes, spec_u32_from_le_bytes, spec_u32_to_le_bytes, u32_from_le_bytes,
    u32_to_le_bytes,
};
use vstd::prelude::*;

verus! {

/// Bytes before the payload: its length.
pub const HEADER_SIZE: usize = 4;

/// Bytes after the payload: its checksum.
pub const CRC_SIZE: usize = 4;

/// Bytes after the payload of a signed image: its signature, `r` then `s`.
pub const SIGNATURE_SIZE: usize = 64;

/// Length field of a bank that holds no image.
pub const ERASED_LENGTH: u32 = 0xFFFF_FFFF;

/// A slot of flash reserved for one firmware image.
#[derive(Copy, Clone, Debug)]
pub struct Bank<A> {
    pub index: u8,
    pub bootable: bool,
    pub location: A,
    pub size: usize,
    pub is_golden: bool,
}

/// CRC-32 (ISO-HDLC) checksum of `bytes`.
pub uninterp spec fn crc32_of(bytes: Seq<u8>) -> u32;

/// Relies on the crc crate's `Crc::<u32>::checksum` with the CRC-32/ISO-HDLC
/// parameters: the checksum is a function of the bytes alone.
#[verifier::external_body]
fn crc32(bytes: &[u8]) -> (r: u32)
    ensures
        r == crc32_of(bytes@),
{
    crc::Crc::<u32>::new(&crc::CRC_32_ISO_HDLC).checksum(bytes)
}

/// `signature` is a valid ECDSA signature over the P-256 curve, with a
/// SHA-256 digest, of `message` under the SEC1 encoded public key `key`.
pub uninterp spec fn ecdsa_p256_accepts(key: Seq<u8>, message: Seq<u8>, signature: Seq<u8>) -> bool;

/// Relies on the p256 crate: `VerifyingKey::from_sec1_bytes` and
/// `Signature::from_slice` read the key and the signature, and `verify`
/// checks the signature of the message; a key or a signature that does not
/// parse is refused. The verdict is a function of the three byte strings.
#[verifier::external_body]
fn signature_holds(key: &[u8], message: &[u8], signature: &[u8]) -> (r: bool)
    ensures
        r == ecdsa_p256_accepts(key@, message@, signature@),
{
    match (p256::ecdsa::VerifyingKey::from_sec1_bytes(key), p256::ecdsa::Signature::from_slice(signature)) {
        (Ok(key), Ok(signature)) => key.verify(message, &signature).is_ok(),
        _ => false,
    }
}

pub open spec fn le_u32_at(b: Seq<u8>, at: int) -> u32 {
    spec_u32_from_le_bytes(b.subrange(at, at + 4))
}

/// The payload length that the image in `b` declares, when it fits in `b`.
pub open spec fn spec_image_length(b: Seq<u8>) -> Result<usize, Error> {
    if b.len() < HEADER_SIZE + CRC_SIZE {
        Err(Error::NotEnoughData)
    } else if le_u32_at(b, 0) == ERASED_LENGTH {
        Err(Error::BankEmpty)
    } else if le_u32_at(b, 0) + HEADER_SIZE + CRC_SIZE > b.len() {
        Err(Error::ImageTooBig)
    } else {
        Ok(le_u32_at(b, 0) as usize)
    }
}

/// Verdict on an image of payload length `length` in `b`, given the freshly
/// computed checksum of its payload.
pub open spec fn verdict_with(b: Seq<u8>, length: int, payload_crc: u32) -> Result<usize, Error> {
    if le_u32_at(b, HEADER_SIZE + length) == payload_crc {
        Ok(length as usize)
    } else {
        Err(Error::CrcInvalid)
    }
}

/// Verdict on the image in `b`: its payload length when it is valid.
pub open spec fn image_verdict(b: Seq<u8>) -> Result<usize, Error> {
    match spec_image_length(b) {
        Err(e) => Err(e),
        Ok(length) => verdict_with(
            b,
            length as int,
            crc32_of(b.subrange(HEADER_SIZE as int, HEADER_SIZE + length)),
        ),
    }
}

/// The payload length that the signed image in `b` declares, when it fits
/// in `b`.
pub open spec fn spec_signed_image_length(b: Seq<u8>) -> Result<usize, Error> {
    if b.len() < HEADER_SIZE + SIGNATURE_SIZE {
        Err(Error::NotEnoughData)
    } else if le_u32_at(b, 0) == ERASED_LENGTH {
        Err(Error::BankEmpty)
    } else if le_u32_at(b, 0) + HEADER_SIZE + SIGNATURE_SIZE > b.len() {
        Err(Error::ImageTooBig)
    } else {
        Ok(le_u32_at(b, 0) as usize)
    }
}

/// Verdict on the signed image in `b` under the public key `key`.
pub open spec fn signed_image_verdict(b: Seq<u8>, key: Seq<u8>) -> Result<usize, Error> {
    match spec_signed_image_length(b) {
        Err(e) => Err(e),
        Ok(length) => if ecdsa_p256_accepts(
            key,
            b.subrange(HEADER_SIZE as int, HEADER_SIZE + length),
            b.subrange(HEADER_SIZE + length, HEADER_SIZE + length + SIGNATURE_SIZE),
        ) {
            Ok(length)
        } else {
            Err(Error::SignatureInvalid)
        },
    }
}

/// How the images of the banks are verified.
pub enum ImageVerifier {
    /// A trailing CRC-32 of the payload.
    Checksum,
    /// A trailing ECDSA P-256 signature of the payload, checked against this
    /// SEC1 encoded public key.
    Signature { public_key: Vec<u8> },
}

impl ImageVerifier {
    pub open spec fn verdict(&self, b: Seq<u8>) -> Result<usize, Error> {
        match self {
            ImageVerifier::Checksum => image_verdict(b),
            ImageVerifier::Signature { public_key } => signed_image_verdict(b, public_key@),
        }
    }

    /// Verifies the image in `bytes` with this strategy.
    pub fn verify(&self, bytes: &[u8]) -> (r: Result<usize, Error>)
        ensures
            r == self.verdict(bytes@),
    {
        match self {
            ImageVerifier::Checksum => verify_image(bytes),
            ImageVerifier::Signature { public_key } => verify_signed_image(bytes, public_key.as_slice()),
        }
    }
}

/// Reads the declared payload length of a signed image and checks that the
/// image fits, before any digest is computed.
pub fn signed_image_length(bytes: &[u8]) -> (r: Result<usize, Error>)
    ensures
        r == spec_signed_image_length(bytes@),
{
    if bytes.len() < HEADER_SIZE + SIGNATURE_SIZE {
        return Err(Error::NotEnoughData);
    }
    let length = u32_from_le_bytes(&bytes[0..4]);
    if length == ERASED_LENGTH {
        return Err(Error::BankEmpty);
    }
    if length as usize > bytes.len() - (HEADER_SIZE + SIGNATURE_SIZE) {
        return Err(Error::ImageTooBig);
    }
    Ok(length as usize)
}

/// Verifies the signed image in `bytes` against `public_key`.
pub fn verify_signed_image(bytes: &[u8], public_key: &[u8]) -> (r: Result<usize, Error>)
    ensures
        r == signed_image_verdict(bytes@, public_key@),
{
    let length = match signed_image_length(bytes) {
        Ok(length) => length,
        Err(e) => return Err(e),
    };
    let total = bytes.len();
    assert(length + HEADER_SIZE + SIGNATURE_SIZE <= total);
    let payload = &bytes[HEADER_SIZE..HEADER_SIZE + length];
    let signature = &bytes[HEADER_SIZE + length..HEADER_SIZE + length + SIGNATURE_SIZE];
    if signature_holds(public_key, payload, signature) {
        Ok(length)
    } else {
        Err(Error::SignatureInvalid)
    }
}

/// The bytes of `bank` in a device whose contents start at address `origin`.
pub open spec fn bank_bytes<A: FlashAddress>(contents: Seq<u8>, origin: int, bank: Bank<A>) -> Seq<u8> {
    contents.subrange(bank.location.value() - origin, bank.location.value() - origin + bank.size)
}

/// The bytes of an image that holds `payload`.
pub open spec fn encoded_image(payload: Seq<u8>) -> Seq<u8> {
    spec_u32_to_le_bytes(payload.len() as u32) + payload + spec_u32_to_le_bytes(crc32_of(payload))
}

/// Reads the declared payload length and checks that the image fits.
pub fn image_length(bytes: &[u8]) -> (r: Result<usize, Error>)
    ensures
        r == spec_image_length(bytes@),
{
    if bytes.len() < HEADER_SIZE + CRC_SIZE {
        return Err(Error::NotEnoughData);
    }
    let length = u32_from_le_bytes(&bytes[0..4]);
    if length == ERASED_LENGTH {
        return Err(Error::BankEmpty);
    }
    if length as usize > bytes.len() - (HEADER_SIZE + CRC_SIZE) {
        return Err(Error::ImageTooBig);
    }
    Ok(length as usize)
}

/// Compares the stored checksum of an image of payload length `length`
/// with `payload_crc`, the checksum computed over its payload.
pub fn check_checksum(bytes: &[u8], length: usize, payload_crc: u32) -> (r: Result<usize, Error>)
    requires
        length + HEADER_SIZE + CRC_SIZE <= bytes@.len(),
    ensures
        r == verdict_with(bytes@, length as int, payload_crc),
{
    let total = bytes.len();
    assert(length + HEADER_SIZE + CRC_SIZE <= total);
    let at = HEADER_SIZE + length;
    let stored = u32_from_le_bytes(&bytes[at..at + 4]);
    if stored == payload_crc {
        Ok(length)
    } else {
        Err(Error::CrcInvalid)
    }
}

/// Verifies the image in `bytes`: valid when its trailing checksum matches
/// the checksum of its declared payload.
pub fn verify_image(bytes: &[u8]) -> (r: Result<usize, Error>)
    ensures
        r == image_verdict(bytes@),
{
    let length = match image_length(bytes) {
        Ok(length) => length,
        Err(e) => return Err(e),
    };
    let total = bytes.len();
    assert(length + HEADER_SIZE + CRC_SIZE <= total);
    let payload_crc = crc32(&bytes[HEADER_SIZE..HEADER_SIZE + length]);
    check_checksum(bytes, length, payload_crc)
}

/// Builds the image that holds `payload`.
pub fn encode_image(payload: &[u8]) -> (r: Vec<u8>)
    requires
        payload@.len() < ERASED_LENGTH,
    ensures
        r@ == encoded_image(payload@),
{
    let mut image = u32_to_le_bytes(payload.len() as u32);
    let mut i: usize = 0;
    while i < payload.len()
        invariant
            0 <= i <= payload@.len(),
            image@ == spec_u32_to_le_bytes(payload@.len() as u32) + payload@.subrange(0, i as int),
        decreases payload@.len() - i,
    {
        image.push(payload[i]);
        i += 1;
        assert(image@ =~= spec_u32_to_le_bytes(payload@.len() as u32) + payload@.subrange(0, i as int));
    }
    let mut trailer = u32_to_le_bytes(crc32(payload));
    image.append(&mut trailer);
    assert(payload@.subrange(0, payload@.len() as int) =~= payload@);
    image
}

/// An image built around a payload verifies, whatever follows it in its bank.
pub proof fn lemma_encoded_image_is_valid(payload: Seq<u8>, rest: Seq<u8>)
    requires
        payload.len() < ERASED_LENGTH,
    ensures
        image_verdict(encoded_image(payload) + rest) == Ok::<usize, Error>(payload.len() as usize),
{
    lemma_auto_spec_u32_to_from_le_bytes();
    let b = encoded_image(payload) + rest;
    let n = payload.len() as int;
    let len_bytes = spec_u32_to_le_bytes(payload.len() as u32);
    let crc_bytes = spec_u32_to_le_bytes(crc32_of(payload));
    assert(len_bytes.len() == 4 && crc_bytes.len() == 4);
    assert(b.subrange(0, 4) =~= len_bytes);
    assert(b.subrange(4, 4 + n) =~= payload);
    assert(b.subrange(4 + n, 8 + n) =~= crc_bytes);
}

/// Verifies the image in `bank`, reading it through `flash`.
pub fn verify_bank<F: ReadWrite>(flash: &mut F, bank: &Bank<F::Address>, verifier: &ImageVerifier) -> (r: Result<
    usize,
    Error,
>)
    requires
        old(flash).ready(),
    ensures
        final(flash).ready(),
        final(flash).contents() == old(flash).contents(),
        final(flash).origin() == old(flash).origin(),
        in_storage(old(flash).origin(), old(flash).contents().len() as int, bank.location.value(), bank.size as int)
            ==> r == verifier.verdict(bank_bytes(old(flash).contents(), old(flash).origin(), *bank)),
        !in_storage(old(flash).origin(), old(flash).contents().len() as int, bank.location.value(), bank.size as int)
            ==> r is Err,
{
    let mut buffer: Vec<u8> = vec![0u8; bank.size];
    match flash.read(bank.location, buffer.as_mut_slice()) {
        Ok(()) => {},
        Err(e) => return Err(e),
    }
    verifier.verify(buffer.as_slice())
}

} // verus!
