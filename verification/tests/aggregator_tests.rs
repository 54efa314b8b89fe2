use rofl_enclave::aggregator::{AggregatorError, AggregatorStats, DataAggregator, IngestStep, PendingIngest};
use rofl_enclave::clock::{hold_in_range, now_millis, MAX_INSTANT};
use rofl_enclave::config::Config;
use rofl_enclave::crypto::CryptoService;
use rofl_enclave::validation::ValidationError;
use rofl_enclave::merkle::MerkleTree;
use rofl_enclave::models::{MeterRecord, ProofData};

const NOW: i64 = 1_700_000_123_456;
const HOUR: i64 = 3_600_000;

fn energy(value: f64) -> i32 {
    (value * 1_000_000.0).round() as i32
}

fn config(capacity: usize, multiplier: u32, verify: bool) -> Config {
    Config {
        host: "127.0.0.1".to_string(),
        port: 8080,
        agg_window_sec: 300,
        output_dir: "/tmp/test_proofs".to_string(),
        seal_endpoint: None,
        max_records_per_window: capacity,
        outlier_threshold_multiplier: multiplier,
        enable_signature_verification: verify,
    }
}

fn reading(meter: &str, nonce_digit: char, value: f64, timestamp: i64) -> MeterRecord {
    MeterRecord {
        meter_id: meter.to_string(),
        timestamp,
        kwh_delta: energy(value),
        nonce: nonce_digit.to_string().repeat(32),
    }
}

/// The receipt of a submission that was admitted.
fn admitted(step: Result<IngestStep, AggregatorError>) -> u128 {
    match step {
        Ok(IngestStep::Admitted { receipt_id }) => receipt_id,
        other => panic!("not admitted: {:?}", other),
    }
}

/// The proof that a submission wants written, and the submission that waits.
fn to_write(step: Result<IngestStep, AggregatorError>) -> (ProofData, PendingIngest) {
    match step {
        Ok(IngestStep::WriteProof { proof, pending }) => (proof, pending),
        other => panic!("no proof to write: {:?}", other),
    }
}

fn sign(record: &MeterRecord) -> String {
    let secp = secp256k1::Secp256k1::new();
    let secret = secp256k1::SecretKey::from_slice(&[0x42; 32]).unwrap();
    let digest = CryptoService::new().create_message_hash(record);
    let message = secp256k1::Message::from_slice(&digest).unwrap();
    let (id, rs) = secp.sign_ecdsa_recoverable(&message, &secret).serialize_compact();
    format!("0x{}{:02x}", hex::encode(rs), id.to_i32())
}

#[test]
fn new_engine_is_empty() {
    let engine = DataAggregator::new(config(1000, 3000, true));
    assert_eq!(*engine.get_stats(), AggregatorStats::default());
    assert_eq!(engine.get_stats().total_records_processed, 0);
    assert_eq!(engine.get_stats().total_proofs_generated, 0);
    assert_eq!(engine.get_stats().last_proof_generated, None);
    assert!(engine.get_window_status().is_none());
    assert!(engine.window_status_at(NOW).is_none());
}

#[test]
fn first_reading_opens_a_window_at_the_top_of_the_hour() {
    let mut engine = DataAggregator::new(config(1000, 3000, false));
    let receipt = admitted(engine.ingest(reading("m1", 'a', 1.5, NOW), "sig".to_string(), NOW, 11, 22));
    assert_eq!(receipt, 11);
    let status = engine.window_status_at(NOW).unwrap();
    assert_eq!(status.window_start, NOW - NOW % HOUR);
    assert_eq!(status.window_start, 1_699_999_200_000);
    assert_eq!(status.window_end, status.window_start + 300_000);
    assert_eq!(status.records_collected, 1);
    assert_eq!(status.time_remaining_seconds, 0);
    assert_eq!(engine.get_stats().total_records_processed, 1);
}

#[test]
fn time_remaining_counts_whole_seconds() {
    let mut engine = DataAggregator::new(config(1000, 3000, false));
    let now = 1_699_999_200_000 + 1_001;
    engine.ingest(reading("m1", 'a', 1.5, now), String::new(), now, 1, 2).unwrap();
    assert_eq!(engine.window_status_at(now).unwrap().time_remaining_seconds, 298);
    assert_eq!(engine.window_status_at(now - 1).unwrap().time_remaining_seconds, 299);
    assert_eq!(engine.window_status_at(1_699_999_200_000 + 300_000).unwrap().time_remaining_seconds, 0);
    assert_eq!(engine.window_status_at(1_699_999_200_000 + 900_000).unwrap().time_remaining_seconds, 0);
}

#[test]
fn window_before_the_epoch_starts_at_the_top_of_the_hour() {
    let mut engine = DataAggregator::new(config(1000, 3000, false));
    let now = -1;
    engine.ingest(reading("m1", 'a', 1.5, now), String::new(), now, 1, 2).unwrap();
    let status = engine.window_status_at(now).unwrap();
    assert_eq!(status.window_start, -HOUR);
    assert_eq!(status.window_end, -HOUR + 300_000);
}

#[test]
fn duplicate_rejection() {
    let mut engine = DataAggregator::new(config(1000, 3000, false));
    let now = 1_699_999_200_000 + 5;
    engine.ingest(reading("m1", 'a', 1.0, now), String::new(), now, 1, 2).unwrap();
    let again = engine.ingest(reading("m1", 'a', 2.0, now), String::new(), now + 1, 3, 4);
    assert_eq!(again.unwrap_err(), AggregatorError::Duplicate);
    assert_eq!(engine.get_stats().records_rejected_duplicate, 1);
    assert_eq!(engine.get_stats().total_records_processed, 1);
    assert_eq!(engine.window_status_at(now).unwrap().records_collected, 1);
    // Another nonce or another meter is no duplicate.
    engine.ingest(reading("m1", 'b', 1.0, now), String::new(), now, 5, 6).unwrap();
    engine.ingest(reading("m2", 'a', 1.0, now), String::new(), now, 7, 8).unwrap();
    assert_eq!(engine.window_status_at(now).unwrap().records_collected, 3);
    assert_eq!(engine.get_stats().records_rejected_duplicate, 1);
}

#[test]
fn duplicates_are_told_within_one_window_only() {
    let mut engine = DataAggregator::new(config(1000, 3000, false));
    let now = 1_699_999_200_000 + 5;
    engine.ingest(reading("m1", 'a', 1.0, now), String::new(), now, 1, 2).unwrap();
    let later = now + HOUR;
    let (proof, pending) = to_write(engine.ingest(reading("m1", 'a', 1.0, later), String::new(), later, 3, 4));
    assert_eq!(proof.record_count, 1);
    assert_eq!(proof.proof_id, 4);
    assert_eq!(proof.generated_at, later);
    assert_eq!(proof.window_start, 1_699_999_200_000);
    assert_eq!(proof.window_end, 1_699_999_200_000 + 300_000);
    // Until the proof is written nothing is counted and nothing admitted.
    assert!(engine.window_status_at(later).is_none());
    assert_eq!(engine.get_stats().total_proofs_generated, 0);
    assert_eq!(engine.get_stats().last_proof_generated, None);
    assert_eq!(engine.get_stats().total_records_processed, 1);
    assert_eq!(pending.receipt_id, 3);
    assert_eq!(pending.now, later);
    assert_eq!(admitted(engine.resume_ingest(pending, true, later + 9, 5)), 3);
    assert_eq!(engine.window_status_at(later).unwrap().window_start, 1_699_999_200_000 + HOUR);
    assert_eq!(engine.window_status_at(later).unwrap().records_collected, 1);
    assert_eq!(engine.get_stats().records_rejected_duplicate, 0);
    assert_eq!(engine.get_stats().total_proofs_generated, 1);
    assert_eq!(engine.get_stats().last_proof_generated, Some(later + 9));
    assert_eq!(engine.get_stats().total_records_processed, 2);
}

#[test]
fn failed_write_admits_nothing() {
    let mut engine = DataAggregator::new(config(1, 3000, false));
    let now = 1_699_999_200_000 + 5;
    assert_eq!(admitted(engine.ingest(reading("m1", 'a', 1.0, now), String::new(), now, 1, 2)), 1);
    let (proof, pending) = to_write(engine.ingest(reading("m2", 'b', 2.0, now), String::new(), now, 3, 4));
    assert_eq!(proof.record_count, 1);
    assert_eq!(proof.meter_ids, vec!["m1"]);
    let before = *engine.get_stats();
    let failed = engine.resume_ingest(pending, false, now + 1, 5);
    assert_eq!(failed.unwrap_err(), AggregatorError::Persistence);
    // The window is gone and is not restored; nothing was counted.
    assert!(engine.window_status_at(now).is_none());
    assert_eq!(*engine.get_stats(), before);
    assert_eq!(engine.get_stats().total_proofs_generated, 0);
    assert_eq!(engine.get_stats().last_proof_generated, None);
    assert_eq!(engine.get_stats().total_records_processed, 1);
    // The reading can be submitted again.
    assert_eq!(admitted(engine.ingest(reading("m2", 'b', 2.0, now), String::new(), now, 6, 7)), 6);
    assert_eq!(engine.window_status_at(now).unwrap().records_collected, 1);
}

#[test]
fn proof_is_counted_once_it_is_written() {
    let mut engine = DataAggregator::new(config(1000, 3000, false));
    let now = 1_699_999_200_000 + 5;
    engine.ingest(reading("m1", 'a', 1.0, now), String::new(), now, 1, 2).unwrap();
    let proof = engine.finalize_at(9, now + 1).unwrap();
    assert_eq!(proof.record_count, 1);
    assert!(engine.window_status_at(now).is_none());
    assert_eq!(engine.get_stats().total_proofs_generated, 0);
    assert_eq!(engine.get_stats().last_proof_generated, None);
    assert_eq!(engine.proof_written(false, now + 2), Err(AggregatorError::Persistence));
    assert_eq!(engine.get_stats().total_proofs_generated, 0);
    assert_eq!(engine.get_stats().last_proof_generated, None);
    assert_eq!(engine.get_stats().total_records_processed, 1);
    assert!(engine.window_status_at(now).is_none());
    assert_eq!(engine.proof_written(true, now + 3), Ok(()));
    assert_eq!(engine.get_stats().total_proofs_generated, 1);
    assert_eq!(engine.get_stats().last_proof_generated, Some(now + 3));
    assert_eq!(engine.get_stats().total_records_processed, 1);
}

#[test]
fn closing_an_empty_window_asks_for_no_write() {
    let mut engine = DataAggregator::new(config(1000, 1, false));
    let now = 1_699_999_200_000 + 5;
    for (nonce, value) in [('a', 1.0), ('b', 3.0), ('c', 1.0), ('d', 3.0)] {
        engine.ingest(reading("m1", nonce, value, now), String::new(), now, 1, 2).unwrap();
    }
    // Every reading of the ended window is an outlier: it leaves no proof,
    // and the reading that closes it is admitted at once.
    let later = now + HOUR;
    assert_eq!(admitted(engine.ingest(reading("m1", 'a', 1.0, later), String::new(), later, 8, 9)), 8);
    assert_eq!(engine.get_stats().records_rejected_outlier, 4);
    assert_eq!(engine.get_stats().total_proofs_generated, 0);
    assert_eq!(engine.window_status_at(later).unwrap().records_collected, 1);
}

#[test]
fn capacity_rotation() {
    let mut engine = DataAggregator::new(config(3, 3000, false));
    let now = 1_699_999_200_000 + 5;
    let crypto = CryptoService::new();
    let mut hashes = Vec::new();
    for (i, nonce) in ['a', 'b', 'c'].into_iter().enumerate() {
        let record = reading(&format!("meter_{}", 2 - i), nonce, 1.0 + i as f64, now);
        hashes.push(crypto.create_record_hash(&record));
        assert_eq!(admitted(engine.ingest(record, String::new(), now, i as u128, 100)), i as u128);
    }
    assert_eq!(engine.window_status_at(now).unwrap().records_collected, 3);
    let (proof, pending) = to_write(engine.ingest(reading("meter_9", 'd', 4.0, now), String::new(), now, 3, 77));
    assert_eq!(proof.proof_id, 77);
    assert_eq!(proof.record_count, 3);
    assert_eq!(proof.aggregate_kwh, 6_000_000);
    assert_eq!(proof.meter_ids, vec!["meter_0", "meter_1", "meter_2"]);
    assert_eq!(proof.version, "1.0.0");
    assert_eq!(proof.merkle_root, MerkleTree::new(hashes).unwrap().root);
    assert_eq!(proof.merkle_root.len(), 64);
    assert_eq!(admitted(engine.resume_ingest(pending, true, now, 78)), 3);
    assert_eq!(engine.window_status_at(now).unwrap().records_collected, 1);
    assert_eq!(engine.get_stats().total_records_processed, 4);
    assert_eq!(engine.get_stats().total_proofs_generated, 1);
}

#[test]
fn outlier_only_window() {
    // Of three values the furthest lies at most the square root of two
    // population standard deviations from the mean: at a multiplier of 2
    // nothing is dropped.
    let mut engine = DataAggregator::new(config(1000, 2000, false));
    let now = 1_699_999_200_000 + 5;
    for (nonce, value) in [('a', 1.0), ('b', 1.0), ('c', 100.0)] {
        engine.ingest(reading("m1", nonce, value, now), String::new(), now, 1, 2).unwrap();
    }
    let proof = engine.force_finalize().unwrap();
    assert_eq!(proof.record_count, 3);
    assert_eq!(proof.aggregate_kwh, energy(102.0) as i128);
    assert_eq!(engine.get_stats().records_rejected_outlier, 0);
}

#[test]
fn window_with_one_outlier() {
    let mut engine = DataAggregator::new(config(1000, 1400, false));
    let now = 1_699_999_200_000 + 5;
    for (nonce, value) in [('a', 1.0), ('b', 1.0), ('c', 100.0)] {
        engine.ingest(reading("m1", nonce, value, now), String::new(), now, 1, 2).unwrap();
    }
    let proof = engine.finalize_at(9, now + 1).unwrap();
    assert_eq!(proof.aggregate_kwh, energy(2.0) as i128);
    assert_eq!(proof.record_count, 2);
    assert_eq!(proof.meter_ids, vec!["m1"]);
    assert_eq!(engine.get_stats().records_rejected_outlier, 1);
    assert!(engine.window_status_at(now).is_none());
}

#[test]
fn window_of_outliers_only_leaves_no_proof() {
    let mut engine = DataAggregator::new(config(1000, 1, false));
    let now = 1_699_999_200_000 + 5;
    for (nonce, value) in [('a', 1.0), ('b', 3.0), ('c', 1.0), ('d', 3.0)] {
        engine.ingest(reading("m1", nonce, value, now), String::new(), now, 1, 2).unwrap();
    }
    assert!(engine.finalize_at(9, now).is_none());
    assert_eq!(engine.get_stats().records_rejected_outlier, 4);
    assert_eq!(engine.get_stats().total_proofs_generated, 0);
    assert_eq!(engine.get_stats().last_proof_generated, None);
}

#[test]
fn finalizing_without_a_window_does_nothing() {
    let mut engine = DataAggregator::new(config(1000, 3000, false));
    assert!(engine.force_finalize().is_none());
    assert!(engine.finalize_current_window().is_none());
    assert!(engine.finalize_at(1, NOW).is_none());
    assert_eq!(*engine.get_stats(), AggregatorStats::default());
}

#[test]
fn invalid_reading_changes_nothing() {
    let mut engine = DataAggregator::new(config(1000, 3000, true));
    let result = engine.ingest(reading("", 'a', 1.0, NOW), "sig".to_string(), NOW, 1, 2);
    assert_eq!(result.unwrap_err(), AggregatorError::Validation(ValidationError::EmptyMeterId));
    let result = engine.ingest(reading("m1", 'a', 1.0, NOW - 86_400_001), "sig".to_string(), NOW, 1, 2);
    assert_eq!(result.unwrap_err(), AggregatorError::Validation(ValidationError::TimestampTooOld));
    assert_eq!(*engine.get_stats(), AggregatorStats::default());
    assert!(engine.window_status_at(NOW).is_none());
}

#[test]
fn invalid_signature_is_counted() {
    let mut engine = DataAggregator::new(config(1000, 3000, true));
    let record = reading("m1", 'a', 1.0, NOW);
    let result = engine.ingest(record.clone(), "invalid_signature".to_string(), NOW, 1, 2);
    assert_eq!(result.unwrap_err(), AggregatorError::InvalidSignature);
    assert_eq!(engine.get_stats().records_rejected_signature, 1);
    assert!(engine.window_status_at(NOW).is_none());
    let signature = sign(&record);
    assert_eq!(admitted(engine.ingest(record, signature, NOW, 5, 6)), 5);
    assert_eq!(engine.get_stats().total_records_processed, 1);
    assert_eq!(engine.get_stats().records_rejected_signature, 1);
}

#[test]
fn signature_is_not_looked_at_when_verification_is_off() {
    let mut engine = DataAggregator::new(config(1000, 3000, false));
    engine.ingest(reading("m1", 'a', 1.0, NOW), "invalid_signature".to_string(), NOW, 1, 2).unwrap();
    assert_eq!(engine.get_stats().records_rejected_signature, 0);
}

#[test]
fn process_record_uses_the_clock() {
    // A window of two hours from the top of the hour is still running.
    let mut engine = DataAggregator::new(Config { agg_window_sec: 7200, ..config(1000, 3000, false) });
    let now = chrono::Utc::now().timestamp_millis();
    let first = admitted(engine.process_record(reading("m1", 'a', 1.0, now), String::new()));
    let second = admitted(engine.process_record(reading("m1", 'b', 1.0, now), String::new()));
    assert_ne!(first, second);
    let status = engine.get_window_status().unwrap();
    assert_eq!(status.window_start % HOUR, 0);
    assert!(status.window_start <= now && now - status.window_start < HOUR + 60_000);
    assert_eq!(status.window_end - status.window_start, 7_200_000);
    assert_eq!(status.records_collected, 2);
    let stale = engine.process_record(reading("m1", 'c', 1.0, now - 2 * 86_400_000), String::new());
    assert_eq!(stale.unwrap_err(), AggregatorError::Validation(ValidationError::TimestampTooOld));
    let proof = engine.force_finalize().unwrap();
    assert_eq!(proof.record_count, 2);
    assert!(proof.generated_at >= now);
    assert!(engine.get_window_status().is_none());
    assert_eq!(engine.get_stats().total_proofs_generated, 0);
    assert_eq!(engine.proof_written(true, proof.generated_at), Ok(()));
    assert_eq!(engine.get_stats().total_proofs_generated, 1);
}

#[test]
fn submission_into_an_ended_window_waits_for_the_write() {
    // A window of one millisecond from the top of the hour has ended when
    // the next reading comes.
    let mut engine = DataAggregator::new(Config { agg_window_sec: 1, ..config(1000, 3000, false) });
    let now = chrono::Utc::now().timestamp_millis();
    let first = admitted(engine.process_record(reading("m1", 'a', 1.0, now), String::new()));
    if now % HOUR >= 1000 {
        let (proof, pending) = to_write(engine.process_record(reading("m1", 'b', 1.0, now), String::new()));
        assert_eq!(proof.record_count, 1);
        assert_ne!(pending.receipt_id, first);
        let receipt = pending.receipt_id;
        assert_eq!(admitted(engine.resume_record(pending, true)), receipt);
        assert_eq!(engine.get_stats().total_proofs_generated, 1);
        assert!(engine.get_stats().last_proof_generated.unwrap() >= now);
        assert_eq!(engine.get_stats().total_records_processed, 2);
    }
}

#[test]
fn emitted_proof_is_sound() {
    let mut engine = DataAggregator::new(config(1000, 3000, false));
    let now = 1_699_999_200_000 + 5;
    for (i, meter) in ["zeta", "alpha", "mid", "alpha", "Zeta", "\u{e9}"].into_iter().enumerate() {
        let nonce = char::from_digit(i as u32, 16).unwrap();
        engine.ingest(reading(meter, nonce, 0.25, now), String::new(), now, 1, 2).unwrap();
    }
    let proof = engine.finalize_at(3, now).unwrap();
    assert!(proof.record_count >= 1);
    assert_eq!(proof.record_count, 6);
    assert!(proof.aggregate_kwh >= 0);
    assert_eq!(proof.aggregate_kwh, 1_500_000);
    assert_eq!(proof.meter_ids, vec!["Zeta", "alpha", "mid", "zeta", "\u{e9}"]);
    let mut sorted = proof.meter_ids.clone();
    sorted.sort();
    sorted.dedup();
    assert_eq!(proof.meter_ids, sorted);
}

#[test]
fn clock_readings_are_held_in_range() {
    assert_eq!(MAX_INSTANT, 8_640_000_000_000_000);
    for t in [0, 1, -1, NOW, MAX_INSTANT, -MAX_INSTANT] {
        assert_eq!(hold_in_range(t), t);
    }
    assert_eq!(hold_in_range(MAX_INSTANT + 1), MAX_INSTANT);
    assert_eq!(hold_in_range(i64::MAX), MAX_INSTANT);
    assert_eq!(hold_in_range(-MAX_INSTANT - 1), -MAX_INSTANT);
    assert_eq!(hold_in_range(i64::MIN), -MAX_INSTANT);
    let before = chrono::Utc::now().timestamp_millis();
    let now = now_millis();
    let after = chrono::Utc::now().timestamp_millis();
    assert!(before <= now && now <= after);
}
