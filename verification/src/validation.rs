//! The rules that a reading has to keep to be admitted.

use vstd::prelude::*;
use vstd::utf8::encode_utf8;
use crate::clock::now_millis;
use crate::hexcode::is_hex_digit;
use crate::models::{MeterRecord, MeterRecordView, KWH};

verus! {

/// A reading may be a day old at most.
pub const MAX_AGE_MS: i64 = 86_400_000;

/// A reading may be five minutes ahead of the clock at most.
pub const MAX_FUTURE_MS: i64 = 300_000;

/// The longest meter identifier, in bytes.
pub const MAX_METER_ID_LEN: usize = 100;

/// The length of a nonce, in bytes.
pub const NONCE_LEN: usize = 32;

/// The largest energy of one reading: a thousand kilowatt-hours.
pub const MAX_KWH_DELTA: i32 = 1000 * KWH;

/// The rule that a reading breaks.
#[derive(Debug, Clone, Copy, PartialEq, Eq, Structural)]
pub enum ValidationError {
    EmptyMeterId,
    EmptyNonce,
    TimestampTooOld,
    TimestampTooFarInFuture,
    NonPositiveKwhDelta,
    KwhDeltaTooLarge,
    MeterIdTooLong,
    NonceNotHex,
    NonceWrongLength,
}

impl ValidationError {
    /// The field of the reading that breaks the rule.
    pub fn field(&self) -> (name: &'static str)
        ensures
            name@ == match self {
                ValidationError::EmptyMeterId | ValidationError::MeterIdTooLong => "meter_id"@,
                ValidationError::EmptyNonce | ValidationError::NonceNotHex | ValidationError::NonceWrongLength
                    => "nonce"@,
                ValidationError::TimestampTooOld | ValidationError::TimestampTooFarInFuture => "timestamp"@,
                ValidationError::NonPositiveKwhDelta | ValidationError::KwhDeltaTooLarge => "kwh_delta"@,
            },
    {
        match self {
            ValidationError::EmptyMeterId | ValidationError::MeterIdTooLong => "meter_id",
            ValidationError::EmptyNonce | ValidationError::NonceNotHex | ValidationError::NonceWrongLength => "nonce",
            ValidationError::TimestampTooOld | ValidationError::TimestampTooFarInFuture => "timestamp",
            ValidationError::NonPositiveKwhDelta | ValidationError::KwhDeltaTooLarge => "kwh_delta",
        }
    }

    /// The rule in words.
    pub fn message(&self) -> (text: &'static str)
        ensures
            text@ == match self {
                ValidationError::EmptyMeterId => "meter_id cannot be empty"@,
                ValidationError::EmptyNonce => "nonce cannot be empty"@,
                ValidationError::TimestampTooOld => "timestamp too old (>24 hours)"@,
                ValidationError::TimestampTooFarInFuture => "timestamp too far in future (>5 minutes)"@,
                ValidationError::NonPositiveKwhDelta => "kwh_delta must be positive"@,
                ValidationError::KwhDeltaTooLarge => "kwh_delta too large (>1000 kWh)"@,
                ValidationError::MeterIdTooLong => "meter_id too long (>100 characters)"@,
                ValidationError::NonceNotHex => "nonce must be hexadecimal"@,
                ValidationError::NonceWrongLength => "nonce must be 32 hex characters"@,
            },
    {
        match self {
            ValidationError::EmptyMeterId => "meter_id cannot be empty",
            ValidationError::EmptyNonce => "nonce cannot be empty",
            ValidationError::TimestampTooOld => "timestamp too old (>24 hours)",
            ValidationError::TimestampTooFarInFuture => "timestamp too far in future (>5 minutes)",
            ValidationError::NonPositiveKwhDelta => "kwh_delta must be positive",
            ValidationError::KwhDeltaTooLarge => "kwh_delta too large (>1000 kWh)",
            ValidationError::MeterIdTooLong => "meter_id too long (>100 characters)",
            ValidationError::NonceNotHex => "nonce must be hexadecimal",
            ValidationError::NonceWrongLength => "nonce must be 32 hex characters",
        }
    }
}

/// Whether every byte is a hexadecimal digit of either case.
pub open spec fn all_hex_digits(bytes: Seq<u8>) -> bool {
    forall|i: int| 0 <= i < bytes.len() ==> is_hex_digit(#[trigger] bytes[i])
}

/// The first rule that a reading breaks at the instant `now`, if it breaks
/// one. The rules are tried in this order: the meter identifier and the nonce
/// are not empty; the timestamp is not older than a day and not further ahead
/// than five minutes; the energy is positive and at most a thousand
/// kilowatt-hours; the meter identifier has at most 100 bytes; the nonce is
/// made of hexadecimal digits, 32 of them.
pub open spec fn validation_failure(record: MeterRecordView, now: int) -> Option<ValidationError> {
    let meter_id = encode_utf8(record.meter_id);
    let nonce = encode_utf8(record.nonce);
    if record.meter_id.len() == 0 {
        Some(ValidationError::EmptyMeterId)
    } else if record.nonce.len() == 0 {
        Some(ValidationError::EmptyNonce)
    } else if record.timestamp < now - MAX_AGE_MS {
        Some(ValidationError::TimestampTooOld)
    } else if record.timestamp > now + MAX_FUTURE_MS {
        Some(ValidationError::TimestampTooFarInFuture)
    } else if record.kwh_delta <= 0 {
        Some(ValidationError::NonPositiveKwhDelta)
    } else if record.kwh_delta > MAX_KWH_DELTA {
        Some(ValidationError::KwhDeltaTooLarge)
    } else if meter_id.len() > MAX_METER_ID_LEN {
        Some(ValidationError::MeterIdTooLong)
    } else if !all_hex_digits(nonce) {
        Some(ValidationError::NonceNotHex)
    } else if nonce.len() != NONCE_LEN {
        Some(ValidationError::NonceWrongLength)
    } else {
        None
    }
}

/// Whether a reading keeps every rule at the instant `now`.
pub open spec fn record_valid(record: MeterRecordView, now: int) -> bool {
    &&& 0 < encode_utf8(record.meter_id).len() <= MAX_METER_ID_LEN
    &&& encode_utf8(record.nonce).len() == NONCE_LEN
    &&& all_hex_digits(encode_utf8(record.nonce))
    &&& 0 < record.kwh_delta <= MAX_KWH_DELTA
    &&& now - MAX_AGE_MS <= record.timestamp <= now + MAX_FUTURE_MS
}

/// A reading breaks no rule exactly where it keeps every rule.
pub proof fn lemma_no_failure_iff_valid(record: MeterRecordView, now: int)
    ensures
        validation_failure(record, now) is None <==> record_valid(record, now),
{
    lemma_empty_text(record.meter_id);
    lemma_empty_text(record.nonce);
}

/// A string is empty exactly where its encoding is.
pub proof fn lemma_empty_text(text: Seq<char>)
    ensures
        text.len() == 0 <==> encode_utf8(text).len() == 0,
{
    vstd::utf8::encode_utf8_decode_utf8(text);
    if text.len() == 0 {
        assert(encode_utf8(text).len() == 0);
    }
    if encode_utf8(text).len() == 0 {
        assert(encode_utf8(text) =~= Seq::<u8>::empty());
        assert(vstd::utf8::decode_utf8(Seq::<u8>::empty()).len() == 0);
    }
}

/// Whether every byte of `bytes` is a hexadecimal digit of either case.
fn is_all_hex_digits(bytes: &[u8]) -> (r: bool)
    ensures
        r == all_hex_digits(bytes@),
{
    let mut i: usize = 0;
    while i < bytes.len()
        invariant
            i <= bytes.len(),
            forall|j: int| 0 <= j < i ==> is_hex_digit(#[trigger] bytes@[j]),
        decreases bytes.len() - i,
    {
        let c = bytes[i];
        if !((0x30 <= c && c <= 0x39) || (0x41 <= c && c <= 0x46) || (0x61 <= c && c <= 0x66)) {
            return false;
        }
        i += 1;
    }
    true
}

/// Holds a reading to the rules at the instant `now`, and names the first
/// rule that it breaks.
pub fn validate_record_at(record: &MeterRecord, now: i64) -> (r: Result<(), ValidationError>)
    ensures
        r == match validation_failure(record@, now as int) {
            Some(e) => Err::<(), ValidationError>(e),
            None => Ok::<(), ValidationError>(()),
        },
{
    let meter_id = record.meter_id.as_str().as_bytes();
    let nonce = record.nonce.as_str().as_bytes();
    proof {
        lemma_empty_text(record.meter_id@);
        lemma_empty_text(record.nonce@);
    }
    if meter_id.len() == 0 {
        return Err(ValidationError::EmptyMeterId);
    }
    if nonce.len() == 0 {
        return Err(ValidationError::EmptyNonce);
    }
    if (record.timestamp as i128) < now as i128 - MAX_AGE_MS as i128 {
        return Err(ValidationError::TimestampTooOld);
    }
    if record.timestamp as i128 > now as i128 + MAX_FUTURE_MS as i128 {
        return Err(ValidationError::TimestampTooFarInFuture);
    }
    if record.kwh_delta <= 0 {
        return Err(ValidationError::NonPositiveKwhDelta);
    }
    if record.kwh_delta > MAX_KWH_DELTA {
        return Err(ValidationError::KwhDeltaTooLarge);
    }
    if meter_id.len() > MAX_METER_ID_LEN {
        return Err(ValidationError::MeterIdTooLong);
    }
    if !is_all_hex_digits(nonce) {
        return Err(ValidationError::NonceNotHex);
    }
    if nonce.len() != NONCE_LEN {
        return Err(ValidationError::NonceWrongLength);
    }
    Ok(())
}

/// Holds a reading to the rules at the current instant.
pub fn validate_meter_record(record: &MeterRecord) -> (r: Result<(), ValidationError>)
    ensures
        exists|now: i64|
            crate::clock::valid_instant(now as int) && r == match #[trigger] validation_failure(record@, now as int) {
                Some(e) => Err::<(), ValidationError>(e),
                None => Ok::<(), ValidationError>(()),
            },
{
    let now = now_millis();
    validate_record_at(record, now)
}

} // verus!
