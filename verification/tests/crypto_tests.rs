use rofl_enclave::crypto::{parse_signature, CryptoService, SignatureError};
use rofl_enclave::encoding::canonical_encoding;
use rofl_enclave::models::MeterRecord;
use sha2::Digest;

/// Energy in millionths of a kilowatt-hour.
fn kwh(value: f64) -> i32 {
    (value * 1_000_000.0).round() as i32
}

fn sample_record() -> MeterRecord {
    MeterRecord {
        meter_id: "test_meter".to_string(),
        timestamp: 1640995200000,
        kwh_delta: kwh(1.234),
        nonce: "test_nonce".to_string(),
    }
}

fn sign(record: &MeterRecord, key: [u8; 32]) -> String {
    let secp = secp256k1::Secp256k1::new();
    let secret = secp256k1::SecretKey::from_slice(&key).unwrap();
    let digest = CryptoService::new().create_message_hash(record);
    let message = secp256k1::Message::from_slice(&digest).unwrap();
    let (id, rs) = secp.sign_ecdsa_recoverable(&message, &secret).serialize_compact();
    format!("0x{}{:02x}", hex::encode(rs), id.to_i32())
}

#[test]
fn test_message_hash_consistency() {
    let crypto = CryptoService::new();
    let record = sample_record();

    let hash1 = crypto.create_message_hash(&record);
    let hash2 = crypto.create_message_hash(&record);

    assert_eq!(hash1, hash2);
}

#[test]
fn test_record_hash() {
    let crypto = CryptoService::new();
    let record = sample_record();

    let hash = crypto.create_record_hash(&record);
    assert_eq!(hash.len(), 64);
}

#[test]
fn test_outlier_detection() {
    let crypto = CryptoService::new();
    let values = vec![kwh(1.0), kwh(1.1), kwh(1.2), kwh(10.0), kwh(1.3)];
    let outliers = crypto.detect_outliers(&values, 2000);

    assert_eq!(outliers.len(), 5);
    // 10.0 lies 7.08 from the mean, the threshold is 7.0828.
    assert!(!outliers[3]);
    assert_eq!(outliers, vec![false; 5]);
}

#[test]
fn outlier_beyond_the_threshold_is_flagged() {
    let crypto = CryptoService::new();
    let values = vec![kwh(1.0), kwh(1.1), kwh(1.2), kwh(10.0), kwh(1.3)];
    assert_eq!(crypto.detect_outliers(&values, 1900), vec![false, false, false, true, false]);
}

#[test]
fn outlier_at_exactly_two_deviations_is_kept() {
    // Of five values the furthest can lie at most two population standard
    // deviations from the mean, so a multiplier of 2 flags nothing.
    let crypto = CryptoService::new();
    let values = vec![kwh(1.0), kwh(1.1), kwh(1.2), kwh(10.0), kwh(1.3)];
    assert_eq!(crypto.detect_outliers(&values, 2000), vec![false; 5]);
    let tie = vec![kwh(1.0), kwh(1.0), kwh(1.0), kwh(1.0), kwh(6.0)];
    assert_eq!(crypto.detect_outliers(&tie, 2000), vec![false; 5]);
    assert_eq!(crypto.detect_outliers(&tie, 1999), vec![false, false, false, false, true]);
}

#[test]
fn outlier_among_ten_values() {
    let crypto = CryptoService::new();
    let mut values = vec![kwh(1.0); 9];
    values.push(kwh(100.0));
    let mask = crypto.detect_outliers(&values, 2000);
    assert_eq!(mask.iter().filter(|flag| **flag).count(), 1);
    assert!(mask[9]);
}

#[test]
fn fewer_than_three_values_hold_no_outlier() {
    let crypto = CryptoService::new();
    assert_eq!(crypto.detect_outliers(&[], 2000), Vec::<bool>::new());
    assert_eq!(crypto.detect_outliers(&[kwh(5.0)], 2000), vec![false]);
    assert_eq!(crypto.detect_outliers(&[kwh(1.0), kwh(1000.0)], 1), vec![false, false]);
}

#[test]
fn outliers_of_extreme_values() {
    let crypto = CryptoService::new();
    let values = vec![i32::MIN, i32::MAX, i32::MAX, i32::MAX, i32::MAX, i32::MAX];
    assert_eq!(crypto.detect_outliers(&values, 2000), vec![true, false, false, false, false, false]);
    assert_eq!(crypto.detect_outliers(&values, u32::MAX), vec![false; 6]);
    assert_eq!(crypto.detect_outliers(&[7, 7, 7], 0), vec![false; 3]);
    assert_eq!(crypto.detect_outliers(&[7, 7, 8], 0), vec![true; 3]);
}

#[test]
fn canonical_encoding_is_compact_json_in_key_order() {
    let record = MeterRecord {
        meter_id: "m1".to_string(),
        timestamp: 1640995200000,
        kwh_delta: kwh(1.234),
        nonce: "a".repeat(32),
    };
    let expected = format!(
        "{{\"meter_id\":\"m1\",\"timestamp\":1640995200000,\"kwh_delta\":1.234,\"nonce\":\"{}\"}}",
        "a".repeat(32)
    );
    assert_eq!(String::from_utf8(canonical_encoding(&record)).unwrap(), expected);
}

#[test]
fn canonical_encoding_agrees_with_serde_json() {
    for (meter_id, timestamp, energy) in [
        ("m1", 0i64, 1.0f64),
        ("quote\"back\\slash", -15, 0.5),
        ("tab\tnewline\ncontrol\u{1}\u{1f}", i64::MAX, 1000.0),
        ("unicode \u{e9}\u{4e16}\u{1f600} \u{7f}", i64::MIN, 0.000123),
        ("", 7, 0.00001),
        ("x", 1640995200000, 123.456789),
        ("x", 1, -2.5),
        ("x", 1, 10.0),
    ] {
        let record = MeterRecord {
            meter_id: meter_id.to_string(),
            timestamp,
            kwh_delta: kwh(energy),
            nonce: "0123456789abcdef".to_string(),
        };
        let expected = format!(
            "{{\"meter_id\":{},\"timestamp\":{},\"kwh_delta\":{},\"nonce\":{}}}",
            serde_json::to_string(meter_id).unwrap(),
            serde_json::to_string(&timestamp).unwrap(),
            serde_json::to_string(&energy).unwrap(),
            serde_json::to_string("0123456789abcdef").unwrap()
        );
        assert_eq!(String::from_utf8(canonical_encoding(&record)).unwrap(), expected);
    }
}

#[test]
fn energy_is_written_in_fixed_notation() {
    for (micro, text) in [
        (0, "0.0"),
        (1, "0.000001"),
        (10, "0.00001"),
        (1_000_000, "1.0"),
        (1_500_000, "1.5"),
        (1_000_000_000, "1000.0"),
        (-1, "-0.000001"),
        (i32::MAX, "2147.483647"),
        (i32::MIN, "-2147.483648"),
    ] {
        let record = MeterRecord { meter_id: "m".to_string(), timestamp: 0, kwh_delta: micro, nonce: "n".to_string() };
        let expected = format!("{{\"meter_id\":\"m\",\"timestamp\":0,\"kwh_delta\":{},\"nonce\":\"n\"}}", text);
        assert_eq!(String::from_utf8(canonical_encoding(&record)).unwrap(), expected);
    }
}

#[test]
fn digests_are_sha256_and_keccak256_of_the_encoding() {
    let crypto = CryptoService::new();
    let record = sample_record();
    let encoded = canonical_encoding(&record);
    let sha: [u8; 32] = sha2::Sha256::digest(&encoded).into();
    assert_eq!(crypto.create_message_hash(&record), sha);
    assert_eq!(crypto.create_record_hash(&record), hex::encode(sha3::Keccak256::digest(&encoded)));
    assert_ne!(crypto.create_message_hash(&record).to_vec(), encoded);
    let hash = crypto.create_record_hash(&record);
    assert!(hash.chars().all(|c| c.is_ascii_digit() || ('a'..='f').contains(&c)));
}

#[test]
fn hash_determinism() {
    let crypto = CryptoService::new();
    let record = MeterRecord {
        meter_id: "m1".to_string(),
        timestamp: 1640995200000,
        kwh_delta: kwh(1.234),
        nonce: "0123456789abcdef0123456789abcdef".to_string(),
    };
    let first = crypto.create_record_hash(&record);
    assert_eq!(first.len(), 64);
    assert!(first.chars().all(|c| c.is_ascii_digit() || ('a'..='f').contains(&c)));
    assert_eq!(first, crypto.create_record_hash(&record.clone()));
    assert_eq!(crypto.create_message_hash(&record), crypto.create_message_hash(&record.clone()));
}

#[test]
fn valid_signature_is_accepted() {
    let crypto = CryptoService::new();
    let record = sample_record();
    let signature = sign(&record, [0x11; 32]);
    assert_eq!(signature.len(), 132);
    assert!(crypto.verify_signature(&record, &signature));
    assert!(crypto.verify_signature(&record, &signature[2..]));
}

#[test]
fn signature_over_another_record_recovers_another_key() {
    let crypto = CryptoService::new();
    let record = sample_record();
    let mut other = sample_record();
    other.kwh_delta = kwh(2.0);
    let signature = sign(&record, [0x11; 32]);
    let signer = crypto.recover_public_key(&record, &signature).unwrap();
    assert_eq!(signer.len(), 130);
    let secp = secp256k1::Secp256k1::new();
    let secret = secp256k1::SecretKey::from_slice(&[0x11; 32]).unwrap();
    let public = secp256k1::PublicKey::from_secret_key(&secp, &secret);
    assert_eq!(signer, hex::encode(public.serialize_uncompressed()));
    match crypto.recover_public_key(&other, &signature) {
        Ok(key) => assert_ne!(key, signer),
        Err(e) => assert_eq!(e, SignatureError::RecoveryFailed),
    }
}

#[test]
fn malformed_signatures_are_invalid() {
    let crypto = CryptoService::new();
    let record = sample_record();
    let good = sign(&record, [0x22; 32]);
    assert!(!crypto.verify_signature(&record, "invalid_signature"));
    assert!(!crypto.verify_signature(&record, ""));
    assert!(!crypto.verify_signature(&record, "0x"));
    assert!(!crypto.verify_signature(&record, &good[..130]));
    assert!(!crypto.verify_signature(&record, &format!("{}00", good)));
    assert!(!crypto.verify_signature(&record, &format!("0x{}", "g".repeat(130))));
    assert!(!crypto.verify_signature(&record, &format!("0x{}", "\u{e9}".repeat(65))));
    // A recovery id outside 0..=3.
    assert!(!crypto.verify_signature(&record, &format!("{}1b", &good[..130])));
    // r = 0 is no signature.
    assert!(!crypto.verify_signature(&record, &format!("0x{}{}00", "0".repeat(64), "1".repeat(64))));
    let mock = "0x1234567890abcdef1234567890abcdef1234567890abcdef1234567890abcdef1234567890abcdef1234567890abcdef1234567890abcdef1234567890abcdef12";
    assert!(!crypto.verify_signature(&record, mock));
}

#[test]
fn parse_signature_reads_r_s_and_v() {
    let text = format!("0x{}{}01", "ab".repeat(32), "CD".repeat(32));
    let (rs, v) = parse_signature(&text).unwrap();
    assert_eq!(v, 1);
    assert_eq!(rs.len(), 64);
    assert_eq!(&rs[..32], &[0xab; 32]);
    assert_eq!(&rs[32..], &[0xcd; 32]);
    assert_eq!(parse_signature(&text[2..]).unwrap(), (rs, 1));
    assert_eq!(parse_signature("0x12"), Err(SignatureError::InvalidLength));
    assert_eq!(parse_signature(&"z".repeat(130)), Err(SignatureError::InvalidEncoding));
    assert_eq!(parse_signature(&format!("0x{}", "1".repeat(129))), Err(SignatureError::InvalidLength));
    assert_eq!(parse_signature(&format!("0x0x{}", "1".repeat(128))), Err(SignatureError::InvalidEncoding));
}

#[test]
fn recover_public_key_names_its_failure() {
    let crypto = CryptoService::new();
    let record = sample_record();
    assert_eq!(crypto.recover_public_key(&record, "12"), Err(SignatureError::InvalidLength));
    assert_eq!(crypto.recover_public_key(&record, &"x".repeat(130)), Err(SignatureError::InvalidEncoding));
    let zero = format!("0x{}00", "0".repeat(128));
    assert_eq!(crypto.recover_public_key(&record, &zero), Err(SignatureError::RecoveryFailed));
}
