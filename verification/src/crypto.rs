//! Hashing and signature verification of readings.

use vstd::prelude::*;
use vstd::utf8::encode_utf8;
use crate::digest::{keccak256, keccak256_digest, sha256, sha256_digest};
use crate::ecdsa::{ecdsa_recover, ecdsa_verifies, key_verifies, recover_key};
use crate::encoding::{canonical_bytes, canonical_encoding};
use crate::hexcode::{decode, encode, hex_bytes, hex_text, is_hex};
use crate::models::{MeterRecord, MeterRecordView};
use crate::outlier::{detect, outlier_mask};

verus! {

/// Why a signature could not be read or used.
#[derive(Debug, Clone, Copy, PartialEq, Eq, Structural)]
pub enum SignatureError {
    /// After an optional `0x`, the text does not have 130 bytes.
    InvalidLength,
    /// The text holds something else than hexadecimal digits.
    InvalidEncoding,
    /// No public key is recovered from the signature.
    RecoveryFailed,
}

/// The signature digest of a reading: SHA-256 of its canonical encoding.
pub open spec fn message_hash(record: MeterRecordView) -> Seq<u8> {
    sha256_digest(canonical_bytes(record))
}

/// The record hash of a reading: Keccak-256 of its canonical encoding, in
/// lower-case hexadecimal.
pub open spec fn record_hash(record: MeterRecordView) -> Seq<char> {
    hex_text(keccak256_digest(canonical_bytes(record)))
}

/// The text of a signature without its optional `0x`.
pub open spec fn signature_body(signature: Seq<char>) -> Seq<u8> {
    let bytes = encode_utf8(signature);
    if bytes.len() >= 2 && bytes[0] == 0x30 && bytes[1] == 0x78 {
        bytes.skip(2)
    } else {
        bytes
    }
}

/// Whether the text of a signature is `r`, `s` and `v` in 130 hexadecimal
/// digits, after an optional `0x`.
pub open spec fn signature_well_formed(signature: Seq<char>) -> bool {
    signature_body(signature).len() == 130 && is_hex(signature_body(signature))
}

/// `r` and `s` of a well-formed signature: 64 bytes.
pub open spec fn signature_rs(signature: Seq<char>) -> Seq<u8> {
    hex_bytes(signature_body(signature)).take(64)
}

/// `v` of a well-formed signature: the recovery id.
pub open spec fn signature_v(signature: Seq<char>) -> u8 {
    hex_bytes(signature_body(signature))[64]
}

/// The public key that a signature yields for a reading, if any.
pub open spec fn recovered_key(record: MeterRecordView, signature: Seq<char>) -> Option<Seq<u8>> {
    if signature_well_formed(signature) {
        ecdsa_recover(message_hash(record), signature_rs(signature), signature_v(signature))
    } else {
        None
    }
}

/// Whether a signature is valid for a reading: it is well formed, a public
/// key is recovered from it for the reading's signature digest, and `r` and
/// `s` verify against that digest under the recovered key.
pub open spec fn signature_valid(record: MeterRecordView, signature: Seq<char>) -> bool {
    match recovered_key(record, signature) {
        Some(key) => ecdsa_verifies(message_hash(record), signature_rs(signature), key),
        None => false,
    }
}

/// Two readings that hold the same values have the same digests.
pub proof fn lemma_digests_deterministic(a: MeterRecord, b: MeterRecord)
    requires
        a@ == b@,
    ensures
        canonical_bytes(a@) == canonical_bytes(b@),
        message_hash(a@) == message_hash(b@),
        record_hash(a@) == record_hash(b@),
{
}

/// Reads `r`, `s` and `v` from the text of a signature.
///
/// Gives `r` and `s` as 64 bytes and `v` as one, exactly where the text is
/// well formed.
pub fn parse_signature(signature_hex: &str) -> (r: Result<(Vec<u8>, u8), SignatureError>)
    ensures
        signature_body(signature_hex@).len() != 130 ==> r == Err::<(Vec<u8>, u8), SignatureError>(
            SignatureError::InvalidLength,
        ),
        signature_body(signature_hex@).len() == 130 && !is_hex(signature_body(signature_hex@)) ==> r == Err::<
            (Vec<u8>, u8),
            SignatureError,
        >(SignatureError::InvalidEncoding),
        signature_well_formed(signature_hex@) ==> (r matches Ok(parts) && parts.0@ == signature_rs(signature_hex@)
            && parts.1 == signature_v(signature_hex@)),
{
    let bytes = signature_hex.as_bytes();
    let start: usize = if bytes.len() >= 2 && bytes[0] == 0x30 && bytes[1] == 0x78 {
        2
    } else {
        0
    };
    let body = vstd::slice::slice_subrange(bytes, start, bytes.len());
    proof {
        assert(body@ =~= signature_body(signature_hex@));
    }
    if body.len() != 130 {
        return Err(SignatureError::InvalidLength);
    }
    let mut raw = match decode(body) {
        Ok(raw) => raw,
        Err(_) => {
            return Err(SignatureError::InvalidEncoding);
        },
    };
    let v = raw[64];
    raw.truncate(64);
    proof {
        assert(raw@ =~= signature_rs(signature_hex@));
    }
    Ok((raw, v))
}

/// Hashes readings and checks their signatures. It holds no state.
#[derive(Debug, Clone, Copy)]
pub struct CryptoService {}

impl CryptoService {
    pub fn new() -> Self {
        CryptoService {  }
    }

    /// The signature digest of `record`.
    pub fn create_message_hash(&self, record: &MeterRecord) -> (hash: [u8; 32])
        ensures
            hash@ == message_hash(record@),
    {
        let message = canonical_encoding(record);
        sha256(message.as_slice())
    }

    /// The record hash of `record`: 64 hexadecimal characters.
    pub fn create_record_hash(&self, record: &MeterRecord) -> (hash: String)
        ensures
            hash@ == record_hash(record@),
            hash@.len() == 64,
    {
        let message = canonical_encoding(record);
        let digest = keccak256(message.as_slice());
        encode(&digest)
    }

    /// Whether `signature_hex` is a valid signature for `record`.
    ///
    /// Text that is not well formed, a failed recovery and a signature that
    /// does not verify all give `false`.
    pub fn verify_signature(&self, record: &MeterRecord, signature_hex: &str) -> (valid: bool)
        ensures
            valid == signature_valid(record@, signature_hex@),
    {
        let digest = self.create_message_hash(record);
        match parse_signature(signature_hex) {
            Ok((rs, v)) => match recover_key(&digest, rs.as_slice(), v) {
                Some(key) => key_verifies(&digest, rs.as_slice(), key.as_slice()),
                None => false,
            },
            Err(_) => false,
        }
    }

    /// The public key that `signature_hex` yields for `record`, uncompressed
    /// and in hexadecimal.
    pub fn recover_public_key(&self, record: &MeterRecord, signature_hex: &str) -> (r: Result<
        String,
        SignatureError,
    >)
        ensures
            match r {
                Ok(key) => recovered_key(record@, signature_hex@) matches Some(k) && key@ == hex_text(k),
                Err(SignatureError::InvalidLength) => signature_body(signature_hex@).len() != 130,
                Err(SignatureError::InvalidEncoding) => signature_body(signature_hex@).len() == 130 && !is_hex(
                    signature_body(signature_hex@),
                ),
                Err(SignatureError::RecoveryFailed) => signature_well_formed(signature_hex@) && recovered_key(
                    record@,
                    signature_hex@,
                ) is None,
            },
    {
        let digest = self.create_message_hash(record);
        let (rs, v) = match parse_signature(signature_hex) {
            Ok(parts) => parts,
            Err(e) => {
                return Err(e);
            },
        };
        match recover_key(&digest, rs.as_slice(), v) {
            Some(key) => Ok(encode(key.as_slice())),
            None => Err(SignatureError::RecoveryFailed),
        }
    }
}

impl CryptoService {
    /// The mask of the outliers among `kwh_values`: the values that lie
    /// further from their mean than `threshold_multiplier` thousandths of
    /// their population standard deviation. Among fewer than three values
    /// nothing is an outlier.
    pub fn detect_outliers(&self, kwh_values: &[i32], threshold_multiplier: u32) -> (mask: Vec<bool>)
        ensures
            mask@ == outlier_mask(kwh_values@, threshold_multiplier),
            mask.len() == kwh_values.len(),
    {
        detect(kwh_values, threshold_multiplier)
    }
}

impl Default for CryptoService {
    fn default() -> Self {
        Self::new()
    }
}

} // verus!
