use rofl_enclave::validation::{validate_meter_record, validate_record_at, ValidationError};
use rofl_enclave::models::MeterRecord;

fn energy(value: f64) -> i32 {
    (value * 1_000_000.0).round() as i32
}

#[test]
fn test_validate_meter_record_valid() {
    let record = MeterRecord {
        meter_id: "test_meter_001".to_string(),
        timestamp: chrono::Utc::now().timestamp_millis(),
        kwh_delta: energy(1.5),
        nonce: "1234567890abcdef1234567890abcdef".to_string(),
    };

    assert!(validate_meter_record(&record).is_ok());
}

#[test]
fn test_validate_meter_record_empty_meter_id() {
    let record = MeterRecord {
        meter_id: "".to_string(),
        timestamp: chrono::Utc::now().timestamp_millis(),
        kwh_delta: energy(1.5),
        nonce: "1234567890abcdef1234567890abcdef".to_string(),
    };

    assert!(validate_meter_record(&record).is_err());
}

#[test]
fn test_validate_meter_record_negative_kwh() {
    let record = MeterRecord {
        meter_id: "test_meter".to_string(),
        timestamp: chrono::Utc::now().timestamp_millis(),
        kwh_delta: energy(-1.0),
        nonce: "1234567890abcdef1234567890abcdef".to_string(),
    };

    assert!(validate_meter_record(&record).is_err());
}

#[test]
fn test_validate_meter_record_invalid_nonce() {
    let record = MeterRecord {
        meter_id: "test_meter".to_string(),
        timestamp: chrono::Utc::now().timestamp_millis(),
        kwh_delta: energy(1.5),
        nonce: "invalid_nonce".to_string(),
    };

    assert!(validate_meter_record(&record).is_err());
}

fn valid() -> MeterRecord {
    MeterRecord {
        meter_id: "meter".to_string(),
        timestamp: 1_000_000_000,
        kwh_delta: energy(1.5),
        nonce: "1234567890abcdefABCDEF1234567890".to_string(),
    }
}

#[test]
fn each_rule_is_named() {
    let now = 1_000_000_000;
    assert_eq!(validate_record_at(&valid(), now), Ok(()));
    let cases: Vec<(MeterRecord, ValidationError)> = vec![
        (MeterRecord { meter_id: String::new(), ..valid() }, ValidationError::EmptyMeterId),
        (MeterRecord { nonce: String::new(), ..valid() }, ValidationError::EmptyNonce),
        (MeterRecord { timestamp: now - 86_400_001, ..valid() }, ValidationError::TimestampTooOld),
        (MeterRecord { timestamp: now + 300_001, ..valid() }, ValidationError::TimestampTooFarInFuture),
        (MeterRecord { kwh_delta: 0, ..valid() }, ValidationError::NonPositiveKwhDelta),
        (MeterRecord { kwh_delta: -1, ..valid() }, ValidationError::NonPositiveKwhDelta),
        (MeterRecord { kwh_delta: 1_000_000_001, ..valid() }, ValidationError::KwhDeltaTooLarge),
        (MeterRecord { meter_id: "m".repeat(101), ..valid() }, ValidationError::MeterIdTooLong),
        (MeterRecord { meter_id: "\u{e9}".repeat(51), ..valid() }, ValidationError::MeterIdTooLong),
        (MeterRecord { nonce: "g".repeat(32), ..valid() }, ValidationError::NonceNotHex),
        (MeterRecord { nonce: "invalid_nonce".to_string(), ..valid() }, ValidationError::NonceNotHex),
        (MeterRecord { nonce: "a".repeat(31), ..valid() }, ValidationError::NonceWrongLength),
        (MeterRecord { nonce: "a".repeat(33), ..valid() }, ValidationError::NonceWrongLength),
    ];
    for (record, error) in cases {
        assert_eq!(validate_record_at(&record, now), Err(error));
    }
}

#[test]
fn bounds_are_inclusive() {
    let now = 1_000_000_000;
    for record in [
        MeterRecord { timestamp: now - 86_400_000, ..valid() },
        MeterRecord { timestamp: now + 300_000, ..valid() },
        MeterRecord { kwh_delta: 1, ..valid() },
        MeterRecord { kwh_delta: 1_000_000_000, ..valid() },
        MeterRecord { meter_id: "m".repeat(100), ..valid() },
        MeterRecord { meter_id: "\u{e9}".repeat(50), ..valid() },
    ] {
        assert_eq!(validate_record_at(&record, now), Ok(()));
    }
    assert_eq!(
        validate_record_at(&MeterRecord { timestamp: i64::MIN, ..valid() }, i64::MAX),
        Err(ValidationError::TimestampTooOld)
    );
    assert_eq!(
        validate_record_at(&MeterRecord { timestamp: i64::MAX, ..valid() }, i64::MIN),
        Err(ValidationError::TimestampTooFarInFuture)
    );
}

#[test]
fn the_first_broken_rule_is_reported() {
    let record = MeterRecord { meter_id: String::new(), timestamp: 0, kwh_delta: -5, nonce: String::new() };
    assert_eq!(validate_record_at(&record, 1_000_000_000), Err(ValidationError::EmptyMeterId));
    let record = MeterRecord { meter_id: "m".repeat(200), timestamp: 0, kwh_delta: -5, nonce: "zz".to_string() };
    assert_eq!(validate_record_at(&record, 1_000_000_000), Err(ValidationError::TimestampTooOld));
}

#[test]
fn errors_name_their_field() {
    assert_eq!(ValidationError::EmptyMeterId.field(), "meter_id");
    assert_eq!(ValidationError::MeterIdTooLong.field(), "meter_id");
    assert_eq!(ValidationError::EmptyNonce.field(), "nonce");
    assert_eq!(ValidationError::NonceNotHex.field(), "nonce");
    assert_eq!(ValidationError::NonceWrongLength.field(), "nonce");
    assert_eq!(ValidationError::TimestampTooOld.field(), "timestamp");
    assert_eq!(ValidationError::TimestampTooFarInFuture.field(), "timestamp");
    assert_eq!(ValidationError::NonPositiveKwhDelta.field(), "kwh_delta");
    assert_eq!(ValidationError::KwhDeltaTooLarge.field(), "kwh_delta");
    assert_eq!(ValidationError::EmptyMeterId.message(), "meter_id cannot be empty");
    assert_eq!(ValidationError::NonceWrongLength.message(), "nonce must be 32 hex characters");
}
