//! The records that meters submit, the window that collects them, and the
//! proof that a closed window leaves behind.
//!
//! Energy is a whole number of millionths of a kilowatt-hour; an instant is a
//! number of milliseconds since the Unix epoch; an identifier is the 128-bit
//! value of a UUID.

use vstd::prelude::*;

verus! {

/// Millionths of a kilowatt-hour in one kilowatt-hour.
pub const KWH: i32 = 1_000_000;

/// One reading of a meter.
#[derive(Debug)]
pub struct MeterRecord {
    pub meter_id: String,
    /// When the meter took the reading.
    pub timestamp: i64,
    /// Energy since the previous reading, in millionths of a kilowatt-hour.
    /// What a meter reports with more decimals is rounded before it gets
    /// here, and is encoded, hashed and verified as rounded.
    pub kwh_delta: i32,
    pub nonce: String,
}

/// What a `MeterRecord` holds.
pub struct MeterRecordView {
    pub meter_id: Seq<char>,
    pub timestamp: i64,
    pub kwh_delta: i32,
    pub nonce: Seq<char>,
}

impl View for MeterRecord {
    type V = MeterRecordView;

    open spec fn view(&self) -> MeterRecordView {
        MeterRecordView {
            meter_id: self.meter_id@,
            timestamp: self.timestamp,
            kwh_delta: self.kwh_delta,
            nonce: self.nonce@,
        }
    }
}

impl Clone for MeterRecord {
    fn clone(&self) -> (c: Self)
        ensures
            c@ == self@,
    {
        MeterRecord {
            meter_id: self.meter_id.clone(),
            timestamp: self.timestamp,
            kwh_delta: self.kwh_delta,
            nonce: self.nonce.clone(),
        }
    }
}

/// A reading together with its signature, as it is submitted.
#[derive(Debug)]
pub struct SignedMeterData {
    pub record: MeterRecord,
    pub sig: String,
}

impl Clone for SignedMeterData {
    fn clone(&self) -> (c: Self)
        ensures
            c.record@ == self.record@,
            c.sig@ == self.sig@,
    {
        SignedMeterData { record: self.record.clone(), sig: self.sig.clone() }
    }
}

/// A reading that was admitted to a window.
#[derive(Debug)]
pub struct VerifiedRecord {
    pub record: MeterRecord,
    pub signature: String,
    /// When the reading was admitted.
    pub verification_timestamp: i64,
    /// Keccak-256 of the reading's canonical encoding, in hexadecimal.
    pub record_hash: String,
}

/// What a `VerifiedRecord` holds.
pub struct VerifiedRecordView {
    pub record: MeterRecordView,
    pub signature: Seq<char>,
    pub verification_timestamp: i64,
    pub record_hash: Seq<char>,
}

impl View for VerifiedRecord {
    type V = VerifiedRecordView;

    open spec fn view(&self) -> VerifiedRecordView {
        VerifiedRecordView {
            record: self.record@,
            signature: self.signature@,
            verification_timestamp: self.verification_timestamp,
            record_hash: self.record_hash@,
        }
    }
}

impl Clone for VerifiedRecord {
    fn clone(&self) -> (c: Self)
        ensures
            c@ == self@,
    {
        VerifiedRecord {
            record: self.record.clone(),
            signature: self.signature.clone(),
            verification_timestamp: self.verification_timestamp,
            record_hash: self.record_hash.clone(),
        }
    }
}

/// The admitted readings of a vector, each by what it holds.
pub open spec fn record_views(records: Seq<VerifiedRecord>) -> Seq<VerifiedRecordView> {
    Seq::new(records.len(), |i: int| records[i]@)
}

/// The half-open interval `[window_start, window_end)` and the readings
/// admitted to it, in the order of their admission.
#[derive(Debug)]
pub struct AggregationWindow {
    pub window_start: i64,
    pub window_end: i64,
    pub records: Vec<VerifiedRecord>,
}

/// What an `AggregationWindow` holds.
pub struct AggregationWindowView {
    pub window_start: i64,
    pub window_end: i64,
    pub records: Seq<VerifiedRecordView>,
}

impl View for AggregationWindow {
    type V = AggregationWindowView;

    open spec fn view(&self) -> AggregationWindowView {
        AggregationWindowView {
            window_start: self.window_start,
            window_end: self.window_end,
            records: record_views(self.records@),
        }
    }
}

/// The artifact that a closed window leaves behind.
#[derive(Debug)]
pub struct ProofData {
    pub proof_id: u128,
    /// Sum of the energy of the readings that were kept, in millionths of a
    /// kilowatt-hour.
    pub aggregate_kwh: i128,
    pub merkle_root: String,
    pub window_start: i64,
    pub window_end: i64,
    /// Number of readings that were kept.
    pub record_count: usize,
    /// The meters of the readings that were kept, ascending, each once.
    pub meter_ids: Vec<String>,
    pub generated_at: i64,
    pub version: String,
}

/// What a `ProofData` holds.
pub struct ProofDataView {
    pub proof_id: u128,
    pub aggregate_kwh: i128,
    pub merkle_root: Seq<char>,
    pub window_start: i64,
    pub window_end: i64,
    pub record_count: usize,
    pub meter_ids: Seq<Seq<char>>,
    pub generated_at: i64,
    pub version: Seq<char>,
}

impl View for ProofData {
    type V = ProofDataView;

    open spec fn view(&self) -> ProofDataView {
        ProofDataView {
            proof_id: self.proof_id,
            aggregate_kwh: self.aggregate_kwh,
            merkle_root: self.merkle_root@,
            window_start: self.window_start,
            window_end: self.window_end,
            record_count: self.record_count,
            meter_ids: Seq::new(self.meter_ids@.len(), |i: int| self.meter_ids@[i]@),
            generated_at: self.generated_at,
            version: self.version@,
        }
    }
}

/// A copy of a vector of strings.
pub fn clone_strings(v: &Vec<String>) -> (out: Vec<String>)
    ensures
        out.len() == v.len(),
        forall|i: int| 0 <= i < v.len() ==> (#[trigger] out@[i])@ == v@[i]@,
{
    let mut out: Vec<String> = Vec::new();
    let mut i: usize = 0;
    while i < v.len()
        invariant
            i <= v.len(),
            out.len() == i,
            forall|k: int| 0 <= k < i ==> (#[trigger] out@[k])@ == v@[k]@,
        decreases v.len() - i,
    {
        out.push(v[i].clone());
        i += 1;
    }
    out
}

impl Clone for ProofData {
    fn clone(&self) -> (c: Self)
        ensures
            c@ == self@,
    {
        let c = ProofData {
            proof_id: self.proof_id,
            aggregate_kwh: self.aggregate_kwh,
            merkle_root: self.merkle_root.clone(),
            window_start: self.window_start,
            window_end: self.window_end,
            record_count: self.record_count,
            meter_ids: clone_strings(&self.meter_ids),
            generated_at: self.generated_at,
            version: self.version.clone(),
        };
        assert(c@.meter_ids =~= self@.meter_ids);
        c
    }
}

/// The answer to an accepted submission.
#[derive(Debug)]
pub struct IngestResponse {
    pub success: bool,
    pub message: String,
    pub timestamp: i64,
    pub receipt_id: u128,
}

/// The answer to a health query.
#[derive(Debug)]
pub struct HealthResponse {
    pub status: String,
    pub timestamp: i64,
    pub uptime_seconds: u64,
    pub version: String,
}

/// The answer to a status query.
#[derive(Debug)]
pub struct StatusResponse {
    pub status: String,
    pub current_window: Option<WindowStatus>,
    pub total_records_processed: usize,
    pub total_proofs_generated: usize,
    pub last_proof_generated: Option<i64>,
    pub configuration: StatusConfig,
}

/// A request to seal a proof: a given one, or the latest.
#[derive(Debug, Clone, Copy, PartialEq, Eq, Structural)]
pub struct SealRequest {
    pub proof_id: Option<u128>,
    pub force_latest: bool,
}

/// The answer to a request to seal a proof.
#[derive(Debug)]
pub struct SealResponse {
    pub success: bool,
    pub message: String,
    pub proof_id: Option<u128>,
    pub seal_endpoint: Option<String>,
    /// What the storage gateway answered, as JSON text.
    pub seal_response: Option<String>,
}

/// The answer to a request that was turned down.
#[derive(Debug)]
pub struct ErrorResponse {
    pub error: String,
    pub code: String,
    pub timestamp: i64,
    /// What went wrong, in words.
    pub details: Option<String>,
}

/// A snapshot of the open window.
#[derive(Debug, Clone, Copy, PartialEq, Eq, Structural)]
pub struct WindowStatus {
    pub window_start: i64,
    pub window_end: i64,
    pub records_collected: usize,
    /// Whole seconds until the window ends, never below zero.
    pub time_remaining_seconds: i64,
}

/// The part of the configuration that a status report shows.
#[derive(Debug, Clone, Copy, PartialEq, Eq, Structural)]
pub struct StatusConfig {
    pub agg_window_sec: u64,
    pub max_records_per_window: usize,
    pub enable_signature_verification: bool,
}

} // verus!
