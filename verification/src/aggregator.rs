//! The window aggregation engine: one open window at most, admission of
//! readings to it, and the proof that a window leaves behind when it closes.

use vstd::prelude::*;
use crate::clock::{fresh_id, now_millis, valid_instant, MAX_INSTANT};
use crate::config::{Config, Limits, MAX_WINDOW_SEC};
use crate::crypto::{record_hash, signature_valid, CryptoService};
use crate::digest::keccak256_digest;
use crate::encoding::canonical_bytes;
use crate::hexcode::{is_hex_text, lemma_hex_text_round_trip};
use crate::idset::{is_sorted_set_of, sorted_set, strictly_ascending};
use crate::merkle::{all_hex, merkle_root, texts, MerkleError, MerkleTree};
use crate::models::{
    record_views, AggregationWindow, AggregationWindowView, MeterRecord, MeterRecordView, ProofData, ProofDataView,
    VerifiedRecord, VerifiedRecordView, WindowStatus,
};
use crate::order::str_eq;
use crate::outlier::{outlier_mask, sum};
use crate::validation::{
    lemma_no_failure_iff_valid, record_valid, validate_record_at, validation_failure, ValidationError,
};

verus! {

/// The schema tag of a proof.
pub open spec fn proof_version() -> Seq<char> {
    "1.0.0"@
}

/// Why the engine turned a request down.
#[derive(Debug, Clone, Copy, PartialEq, Eq, Structural)]
pub enum AggregatorError {
    /// The reading breaks an admission rule.
    Validation(ValidationError),
    /// The signature is not valid for the reading.
    InvalidSignature,
    /// The open window holds a reading of the same meter with the same nonce.
    Duplicate,
    /// A proof could not be written.
    Persistence,
    /// The Merkle tree of a proof could not be built.
    Merkle(MerkleError),
    /// The latest proof could not be read.
    Retrieval,
}

/// Counters of the engine. Each one stops at the largest value of its type.
#[derive(Debug, Clone, Copy, PartialEq, Eq, Structural)]
pub struct AggregatorStats {
    pub total_records_processed: usize,
    pub total_proofs_generated: usize,
    pub last_proof_generated: Option<i64>,
    pub records_rejected_signature: usize,
    pub records_rejected_outlier: usize,
    pub records_rejected_duplicate: usize,
}

impl Default for AggregatorStats {
    fn default() -> (s: Self)
        ensures
            s == AggregatorStats::zero(),
    {
        AggregatorStats {
            total_records_processed: 0,
            total_proofs_generated: 0,
            last_proof_generated: None,
            records_rejected_signature: 0,
            records_rejected_outlier: 0,
            records_rejected_duplicate: 0,
        }
    }
}

impl AggregatorStats {
    /// The counters before anything happened.
    pub open spec fn zero() -> AggregatorStats {
        AggregatorStats {
            total_records_processed: 0,
            total_proofs_generated: 0,
            last_proof_generated: None,
            records_rejected_signature: 0,
            records_rejected_outlier: 0,
            records_rejected_duplicate: 0,
        }
    }
}

/// A counter raised by `by`, stopping at the largest value.
pub open spec fn raised(counter: usize, by: int) -> usize {
    if counter + by > usize::MAX {
        usize::MAX
    } else {
        (counter + by) as usize
    }
}

/// Raises a counter by `by`, stopping at the largest value.
pub fn raise(counter: usize, by: usize) -> (r: usize)
    ensures
        r == raised(counter, by as int),
{
    if by > usize::MAX - counter {
        usize::MAX
    } else {
        counter + by
    }
}

/// The energies of the readings, in their order.
pub open spec fn energies(records: Seq<VerifiedRecordView>) -> Seq<i32> {
    Seq::new(records.len(), |i: int| records[i].record.kwh_delta)
}

/// The record hashes of the readings, in their order.
pub open spec fn record_hashes(records: Seq<VerifiedRecordView>) -> Seq<Seq<char>> {
    Seq::new(records.len(), |i: int| records[i].record_hash)
}

/// The meters of the readings, in their order.
pub open spec fn meters(records: Seq<VerifiedRecordView>) -> Seq<Seq<char>> {
    Seq::new(records.len(), |i: int| records[i].record.meter_id)
}

/// The items whose place in the mask holds `false`, in their order.
pub open spec fn unmasked<T>(items: Seq<T>, mask: Seq<bool>) -> Seq<T>
    decreases items.len(),
{
    if items.len() == 0 {
        seq![]
    } else if mask.last() {
        unmasked(items.drop_last(), mask.drop_last())
    } else {
        unmasked(items.drop_last(), mask.drop_last()).push(items.last())
    }
}

/// The readings that the outlier test keeps, in their order.
pub open spec fn kept_records(records: Seq<VerifiedRecordView>, multiplier: u32) -> Seq<VerifiedRecordView> {
    unmasked(records, outlier_mask(energies(records), multiplier))
}

/// Whether `data` is the proof over the kept readings `kept` of a window
/// with the given bounds, made at `now` under the identifier `proof_id`.
pub open spec fn describes(
    data: ProofDataView,
    kept: Seq<VerifiedRecordView>,
    window_start: i64,
    window_end: i64,
    proof_id: u128,
    now: i64,
) -> bool {
    &&& data.proof_id == proof_id
    &&& data.aggregate_kwh == sum(energies(kept))
    &&& data.merkle_root == merkle_root(record_hashes(kept))
    &&& data.window_start == window_start
    &&& data.window_end == window_end
    &&& data.record_count == kept.len()
    &&& is_sorted_set_of(data.meter_ids, meters(kept))
    &&& data.generated_at == now
    &&& data.version == proof_version()
}

/// What holds of every proof that the engine emits: it counts at least one
/// reading, its energy is not negative, and its meters are in ascending order
/// without repetition.
pub open spec fn proof_sound(p: ProofDataView) -> bool {
    &&& p.record_count >= 1
    &&& p.aggregate_kwh >= 0
    &&& strictly_ascending(p.meter_ids)
}

/// Milliseconds in an hour.
pub const HOUR_MS: i64 = 3_600_000;

/// The top of the hour of an instant.
pub open spec fn hour_floor(t: int) -> int {
    t - t % (HOUR_MS as int)
}

/// Whether two readings come from the same meter with the same nonce.
pub open spec fn same_key(a: VerifiedRecordView, b: MeterRecordView) -> bool {
    a.record.meter_id == b.meter_id && a.record.nonce == b.nonce
}

/// Whether the readings hold one of the meter and nonce of `record`.
pub open spec fn has_duplicate(records: Seq<VerifiedRecordView>, record: MeterRecordView) -> bool {
    exists|i: int| 0 <= i < records.len() && same_key(#[trigger] records[i], record)
}

/// Whether a reading in a window was rightly admitted: it kept every rule at
/// the instant of its admission, its hash is the hash of its canonical
/// encoding, and its signature is valid where signatures are verified.
pub open spec fn admitted(r: VerifiedRecordView, verify_signatures: bool) -> bool {
    &&& record_valid(r.record, r.verification_timestamp as int)
    &&& r.record_hash == record_hash(r.record)
    &&& verify_signatures ==> signature_valid(r.record, r.signature)
}

/// Whether a window is one that the engine can hold under the given
/// settings: it starts at the top of an hour and has the configured length,
/// it holds no more readings than the capacity, every reading in it was
/// rightly admitted, and no two of them share meter and nonce.
pub open spec fn window_ok(w: AggregationWindowView, limits: Limits) -> bool {
    &&& w.window_start as int % (HOUR_MS as int) == 0
    &&& -MAX_INSTANT - HOUR_MS <= w.window_start <= MAX_INSTANT
    &&& w.window_end == w.window_start + limits.window_ms
    &&& w.records.len() <= limits.capacity
    &&& forall|i: int| 0 <= i < w.records.len() ==> admitted(#[trigger] w.records[i], limits.verify_signatures)
    &&& forall|i: int, j: int|
        0 <= i < j < w.records.len() ==> !same_key(#[trigger] w.records[i], (#[trigger] w.records[j]).record)
}

/// The window that is opened at the instant `now`.
pub open spec fn fresh_window(now: int, limits: Limits) -> AggregationWindowView {
    AggregationWindowView {
        window_start: hour_floor(now) as i64,
        window_end: (hour_floor(now) + limits.window_ms) as i64,
        records: seq![],
    }
}

/// The counters after the window `w` was closed: the readings that the
/// outlier test dropped are counted. A proof that the window leaves is
/// counted only when it has been written.
pub open spec fn stats_after_close(stats: AggregatorStats, w: AggregationWindowView, limits: Limits) -> AggregatorStats {
    let kept = kept_records(w.records, limits.multiplier);
    AggregatorStats {
        records_rejected_outlier: raised(stats.records_rejected_outlier, w.records.len() - kept.len()),
        ..stats
    }
}

/// The counters after a proof was written at `now`.
pub open spec fn proof_counted(stats: AggregatorStats, now: i64) -> AggregatorStats {
    AggregatorStats {
        total_proofs_generated: raised(stats.total_proofs_generated, 1),
        last_proof_generated: Some(now),
        ..stats
    }
}

/// Whether `emitted` is what closing the window `w` at `now` emits: the proof
/// over the readings that the outlier test keeps, and none where it keeps
/// none.
pub open spec fn emitted_by(emitted: Option<ProofDataView>, w: AggregationWindowView, limits: Limits, proof_id: u128, now: i64) -> bool {
    let kept = kept_records(w.records, limits.multiplier);
    match emitted {
        Some(p) => kept.len() > 0 && describes(p, kept, w.window_start, w.window_end, proof_id, now),
        None => kept.len() == 0,
    }
}

/// What admission at `now` stores of a reading.
pub open spec fn verified(record: MeterRecordView, signature: Seq<char>, now: i64) -> VerifiedRecordView {
    VerifiedRecordView { record, signature, verification_timestamp: now, record_hash: record_hash(record) }
}

/// Whether a new window has to be opened before a reading can be admitted at
/// `now`: there is none, or the open one has ended.
pub open spec fn rotation_due(window: Option<AggregationWindowView>, now: i64) -> bool {
    window matches Some(w) ==> w.window_end <= now
}

/// Whether the open window is still running at `now` and holds as many
/// readings as the capacity allows.
pub open spec fn window_full(window: Option<AggregationWindowView>, limits: Limits, now: i64) -> bool {
    window matches Some(w) && w.window_end > now && w.records.len() >= limits.capacity
}

/// Whether the reading is turned down as a duplicate at `now`: the open
/// window is still running and holds a reading of the same meter with the
/// same nonce.
pub open spec fn duplicate_at(window: Option<AggregationWindowView>, record: MeterRecordView, now: i64) -> bool {
    window matches Some(w) && w.window_end > now && has_duplicate(w.records, record)
}

/// Whether the signature lets the reading in: it is valid, or signatures are
/// not verified.
pub open spec fn signature_passes(limits: Limits, record: MeterRecordView, signature: Seq<char>) -> bool {
    limits.verify_signatures ==> signature_valid(record, signature)
}

/// What a `PendingIngest` holds.
pub struct PendingIngestView {
    pub record: MeterRecordView,
    pub signature: Seq<char>,
    pub now: i64,
    pub receipt_id: u128,
}

/// What an `IngestStep` holds.
pub enum IngestStepView {
    Admitted { receipt_id: u128 },
    WriteProof { proof: ProofDataView, pending: PendingIngestView },
}

/// Whether the submission at `now` closes the open window: there is one, and
/// it has ended or is full.
pub open spec fn closes_window(window: Option<AggregationWindowView>, limits: Limits, now: i64) -> bool {
    window is Some && (rotation_due(window, now) || window_full(window, limits, now))
}

/// The rule of admission: what a submission at the instant `now` makes of the
/// engine and what it is answered with.
///
/// A reading that breaks a rule is turned down and nothing changes. A reading
/// whose signature does not pass is turned down and counted. Then, where a
/// window is still running: a reading whose meter and nonce the window holds
/// is turned down and counted; a full window is closed. Where no window is
/// running any more, the ended one, if there is one, is closed.
///
/// Where the closed window leaves a proof, the proof is handed out to be
/// written under the identifier `proof_id`, no window is open, and the
/// reading is not admitted: it waits, with its signature, its instant and its
/// receipt, until the submission is taken up again after the write.
///
/// In every other case a new window is opened at `now` where none is running,
/// the reading goes to the end of the open window and is counted, and the
/// answer carries the identifier `receipt_id`.
pub open spec fn admission(
    pre: AggregatorView,
    limits: Limits,
    record: MeterRecordView,
    signature: Seq<char>,
    now: i64,
    receipt_id: u128,
    proof_id: u128,
    post: AggregatorView,
    outcome: Result<IngestStepView, AggregatorError>,
) -> bool {
    if let Some(e) = validation_failure(record, now as int) {
        outcome == Err::<IngestStepView, AggregatorError>(AggregatorError::Validation(e)) && post == pre
    } else if !signature_passes(limits, record, signature) {
        &&& outcome == Err::<IngestStepView, AggregatorError>(AggregatorError::InvalidSignature)
        &&& post == AggregatorView {
            stats: AggregatorStats {
                records_rejected_signature: raised(pre.stats.records_rejected_signature, 1),
                ..pre.stats
            },
            ..pre
        }
    } else if duplicate_at(pre.window, record, now) {
        &&& outcome == Err::<IngestStepView, AggregatorError>(AggregatorError::Duplicate)
        &&& post == AggregatorView {
            stats: AggregatorStats {
                records_rejected_duplicate: raised(pre.stats.records_rejected_duplicate, 1),
                ..pre.stats
            },
            ..pre
        }
    } else if closes_window(pre.window, limits, now) && kept_records(pre.window->0.records, limits.multiplier).len()
        > 0 {
        let w = pre.window->0;
        &&& outcome matches Ok(IngestStepView::WriteProof { proof: data, pending })
        &&& describes(data, kept_records(w.records, limits.multiplier), w.window_start, w.window_end, proof_id, now)
        &&& pending == PendingIngestView { record, signature, now, receipt_id }
        &&& post.window is None
        &&& post.stats == stats_after_close(pre.stats, w, limits)
    } else {
        let base = if rotation_due(pre.window, now) || window_full(pre.window, limits, now) {
            fresh_window(now as int, limits)
        } else {
            pre.window->0
        };
        let stats = if closes_window(pre.window, limits, now) {
            stats_after_close(pre.stats, pre.window->0, limits)
        } else {
            pre.stats
        };
        &&& outcome == Ok::<IngestStepView, AggregatorError>(IngestStepView::Admitted { receipt_id })
        &&& post.window == Some(
            AggregationWindowView { records: base.records.push(verified(record, signature, now)), ..base },
        )
        &&& post.stats == AggregatorStats {
            total_records_processed: raised(stats.total_records_processed, 1),
            ..stats
        }
    }
}

/// The rule of taking a submission up again after the proof of the window
/// that it closed was to be written: where the proof was not written, the
/// submission fails and nothing changes; where it was written, at
/// `written_at`, the proof is counted and the reading is submitted again at
/// the instant of its first submission.
pub open spec fn resumption(
    pre: AggregatorView,
    limits: Limits,
    pending: PendingIngestView,
    written: bool,
    written_at: i64,
    proof_id: u128,
    post: AggregatorView,
    outcome: Result<IngestStepView, AggregatorError>,
) -> bool {
    if written {
        admission(
            AggregatorView { stats: proof_counted(pre.stats, written_at), ..pre },
            limits,
            pending.record,
            pending.signature,
            pending.now,
            pending.receipt_id,
            proof_id,
            post,
            outcome,
        )
    } else {
        outcome == Err::<IngestStepView, AggregatorError>(AggregatorError::Persistence) && post == pre
    }
}

/// The snapshot of a window at the instant `now`.
pub open spec fn status_of(w: AggregationWindowView, now: i64) -> WindowStatus {
    WindowStatus {
        window_start: w.window_start,
        window_end: w.window_end,
        records_collected: w.records.len() as usize,
        time_remaining_seconds: if w.window_end > now {
            ((w.window_end - now) / 1000) as i64
        } else {
            0
        },
    }
}

/// The snapshot of the open window at the instant `now`, if there is one.
pub open spec fn status_at(window: Option<AggregationWindowView>, now: i64) -> Option<WindowStatus> {
    match window {
        Some(w) => Some(status_of(w, now)),
        None => None,
    }
}

/// What is kept is part of what was there.
pub proof fn lemma_unmasked_shape<T>(items: Seq<T>, mask: Seq<bool>)
    requires
        mask.len() == items.len(),
    ensures
        unmasked(items, mask).len() <= items.len(),
        forall|k: int|
            0 <= k < unmasked(items, mask).len() ==> items.contains(#[trigger] unmasked(items, mask)[k]),
        (forall|i: int| 0 <= i < mask.len() ==> !mask[i]) ==> unmasked(items, mask) == items,
    decreases items.len(),
{
    if items.len() > 0 {
        let rest = unmasked(items.drop_last(), mask.drop_last());
        lemma_unmasked_shape(items.drop_last(), mask.drop_last());
        assert forall|k: int| 0 <= k < unmasked(items, mask).len() implies items.contains(
            #[trigger] unmasked(items, mask)[k],
        ) by {
            if k < rest.len() {
                assert(items.drop_last().contains(rest[k]));
                let m = choose|m: int| 0 <= m < items.drop_last().len() && items.drop_last()[m] == rest[k];
                assert(items[m] == rest[k]);
            } else {
                assert(items[items.len() - 1] == items.last());
            }
        }
        if forall|i: int| 0 <= i < mask.len() ==> !mask[i] {
            assert forall|i: int| 0 <= i < mask.drop_last().len() implies !mask.drop_last()[i] by {
                assert(!mask[i]);
            }
            assert(!mask[mask.len() - 1]);
            assert(unmasked(items, mask) =~= items);
        }
    } else {
        assert(unmasked(items, mask) =~= items);
    }
}

/// A sum of values that are not negative is not negative.
pub proof fn lemma_sum_nonnegative(values: Seq<i32>)
    requires
        forall|i: int| 0 <= i < values.len() ==> #[trigger] values[i] >= 0,
    ensures
        sum(values) >= 0,
    decreases values.len(),
{
    if values.len() > 0 {
        assert forall|i: int| 0 <= i < values.drop_last().len() implies #[trigger] values.drop_last()[i] >= 0 by {
            assert(values[i] >= 0);
        }
        lemma_sum_nonnegative(values.drop_last());
    }
}

/// The readings that the outlier test keeps of a window that the engine can
/// hold are rightly admitted readings of that window; their hashes are
/// hexadecimal text and their energies are positive.
pub proof fn lemma_kept_of_window(w: AggregationWindowView, limits: Limits)
    requires
        window_ok(w, limits),
    ensures
        kept_records(w.records, limits.multiplier).len() <= w.records.len(),
        all_hex(record_hashes(kept_records(w.records, limits.multiplier))),
        sum(energies(kept_records(w.records, limits.multiplier))) >= 0,
{
    let mask = outlier_mask(energies(w.records), limits.multiplier);
    let kept = kept_records(w.records, limits.multiplier);
    lemma_unmasked_shape(w.records, mask);
    assert forall|k: int| 0 <= k < kept.len() implies admitted(#[trigger] kept[k], limits.verify_signatures) by {
        assert(w.records.contains(kept[k]));
        let m = choose|m: int| 0 <= m < w.records.len() && w.records[m] == kept[k];
        assert(admitted(w.records[m], limits.verify_signatures));
    }
    assert forall|k: int| 0 <= k < record_hashes(kept).len() implies is_hex_text(#[trigger] record_hashes(kept)[k]) by {
        assert(admitted(kept[k], limits.verify_signatures));
        lemma_hex_text_round_trip(keccak256_digest(canonical_bytes(kept[k].record)));
    }
    assert forall|k: int| 0 <= k < energies(kept).len() implies #[trigger] energies(kept)[k] >= 0 by {
        assert(admitted(kept[k], limits.verify_signatures));
    }
    lemma_sum_nonnegative(energies(kept));
}

/// A proof that closing a window emits is sound.
pub proof fn lemma_emitted_proof_sound(p: ProofDataView, w: AggregationWindowView, limits: Limits, proof_id: u128, now: i64)
    requires
        window_ok(w, limits),
        emitted_by(Some(p), w, limits, proof_id, now),
    ensures
        proof_sound(p),
{
    lemma_kept_of_window(w, limits);
}

/// A submission that had to wait for a proof is admitted once the proof is
/// written: taken up again, the reading goes into a new window opened at the
/// instant of its submission, under the receipt of its submission, and the
/// proof is counted.
pub proof fn lemma_resumed_submission_is_admitted(
    pre: AggregatorView,
    limits: Limits,
    record: MeterRecordView,
    signature: Seq<char>,
    now: i64,
    receipt_id: u128,
    proof_id: u128,
    mid: AggregatorView,
    data: ProofDataView,
    pending: PendingIngestView,
    written_at: i64,
    next_proof_id: u128,
    post: AggregatorView,
    outcome: Result<IngestStepView, AggregatorError>,
)
    requires
        admission(
            pre,
            limits,
            record,
            signature,
            now,
            receipt_id,
            proof_id,
            mid,
            Ok(IngestStepView::WriteProof { proof: data, pending }),
        ),
        resumption(mid, limits, pending, true, written_at, next_proof_id, post, outcome),
    ensures
        outcome == Ok::<IngestStepView, AggregatorError>(IngestStepView::Admitted { receipt_id }),
        post.window == Some(
            (AggregationWindowView {
                records: seq![verified(record, signature, now)],
                ..fresh_window(now as int, limits)
            }),
        ),
        post.stats == (AggregatorStats {
            total_records_processed: raised(mid.stats.total_records_processed, 1),
            ..proof_counted(mid.stats, written_at)
        }),
        mid.stats.total_records_processed == pre.stats.total_records_processed,
        mid.stats.total_proofs_generated == pre.stats.total_proofs_generated,
        mid.stats.last_proof_generated == pre.stats.last_proof_generated,
{
    assert(fresh_window(now as int, limits).records.push(verified(record, signature, now)) =~= seq![
        verified(record, signature, now),
    ]);
}

/// What the engine holds: the open window, if there is one, and the counters.
pub struct AggregatorView {
    pub window: Option<AggregationWindowView>,
    pub stats: AggregatorStats,
}

/// The engine.
pub struct DataAggregator {
    config: Config,
    crypto: CryptoService,
    current_window: Option<AggregationWindow>,
    stats: AggregatorStats,
}

impl View for DataAggregator {
    type V = AggregatorView;

    closed spec fn view(&self) -> AggregatorView {
        AggregatorView {
            window: match self.current_window {
                Some(w) => Some(w@),
                None => None,
            },
            stats: self.stats,
        }
    }
}

/// A submission that waits for the proof of the window that it closed to be
/// written.
#[derive(Debug)]
pub struct PendingIngest {
    pub record: MeterRecord,
    pub signature: String,
    /// The instant of the submission.
    pub now: i64,
    /// The identifier under which the submission is answered.
    pub receipt_id: u128,
}

impl View for PendingIngest {
    type V = PendingIngestView;

    open spec fn view(&self) -> PendingIngestView {
        PendingIngestView {
            record: self.record@,
            signature: self.signature@,
            now: self.now,
            receipt_id: self.receipt_id,
        }
    }
}

/// How far a submission got.
#[derive(Debug)]
pub enum IngestStep {
    /// The reading was admitted.
    Admitted {
        /// The identifier of this submission.
        receipt_id: u128,
    },
    /// The submission closed a window that left a proof. The proof is to be
    /// written, and the submission to be taken up again with the outcome of
    /// the write; until then the reading is not admitted.
    WriteProof { proof: ProofData, pending: PendingIngest },
}

impl View for IngestStep {
    type V = IngestStepView;

    open spec fn view(&self) -> IngestStepView {
        match self {
            IngestStep::Admitted { receipt_id } => IngestStepView::Admitted { receipt_id: *receipt_id },
            IngestStep::WriteProof { proof: data, pending } => IngestStepView::WriteProof {
                proof: data@,
                pending: pending@,
            },
        }
    }
}

/// What an optional proof holds.
pub open spec fn option_view(p: Option<ProofData>) -> Option<ProofDataView> {
    match p {
        Some(p) => Some(p@),
        None => None,
    }
}

/// What the outcome of a submission holds.
pub open spec fn outcome_view(r: Result<IngestStep, AggregatorError>) -> Result<IngestStepView, AggregatorError> {
    match r {
        Ok(step) => Ok(step@),
        Err(e) => Err(e),
    }
}

/// The energies of the readings.
fn energies_of(records: &Vec<VerifiedRecord>) -> (values: Vec<i32>)
    ensures
        values@ == energies(record_views(records@)),
{
    let mut values: Vec<i32> = Vec::new();
    let mut i: usize = 0;
    while i < records.len()
        invariant
            i <= records.len(),
            values.len() == i,
            forall|k: int| 0 <= k < i ==> #[trigger] values@[k] == records@[k]@.record.kwh_delta,
        decreases records.len() - i,
    {
        values.push(records[i].record.kwh_delta);
        i += 1;
    }
    assert(values@ =~= energies(record_views(records@)));
    values
}

/// The readings whose place in the mask holds `false`.
fn keep_unmasked(records: &Vec<VerifiedRecord>, mask: &Vec<bool>) -> (kept: Vec<VerifiedRecord>)
    requires
        mask.len() == records.len(),
    ensures
        record_views(kept@) == unmasked(record_views(records@), mask@),
{
    let mut kept: Vec<VerifiedRecord> = Vec::new();
    let mut i: usize = 0;
    let ghost all = record_views(records@);
    proof {
        assert(all.take(0) =~= Seq::<VerifiedRecordView>::empty());
        assert(record_views(kept@) =~= unmasked(all.take(0), mask@.take(0)));
    }
    while i < records.len()
        invariant
            i <= records.len(),
            mask.len() == records.len(),
            all == record_views(records@),
            record_views(kept@) == unmasked(all.take(i as int), mask@.take(i as int)),
        decreases records.len() - i,
    {
        let ghost before = record_views(kept@);
        proof {
            assert(all.take(i + 1).drop_last() =~= all.take(i as int));
            assert(mask@.take(i + 1).drop_last() =~= mask@.take(i as int));
            assert(all.take(i + 1).last() == records@[i as int]@);
            assert(mask@.take(i + 1).last() == mask@[i as int]);
        }
        if !mask[i] {
            kept.push(records[i].clone());
            proof {
                assert(record_views(kept@) =~= before.push(records@[i as int]@));
            }
        }
        i += 1;
    }
    proof {
        assert(all.take(i as int) =~= all);
        assert(mask@.take(i as int) =~= mask@);
    }
    kept
}

/// The sum of the energies of the readings.
fn total_energy(records: &Vec<VerifiedRecord>) -> (total: i128)
    ensures
        total == sum(energies(record_views(records@))),
{
    let ghost values = energies(record_views(records@));
    let mut total: i128 = 0;
    let mut i: usize = 0;
    proof {
        assert(values.take(0) =~= Seq::<i32>::empty());
    }
    while i < records.len()
        invariant
            i <= records.len(),
            values == energies(record_views(records@)),
            total == sum(values.take(i as int)),
            -(i * 0x8000_0000) <= total <= i * 0x8000_0000,
        decreases records.len() - i,
    {
        proof {
            assert(values.take(i + 1).drop_last() =~= values.take(i as int));
            assert(values.take(i + 1).last() == records@[i as int]@.record.kwh_delta);
        }
        total = total + records[i].record.kwh_delta as i128;
        i += 1;
    }
    proof {
        assert(values.take(i as int) =~= values);
    }
    total
}

/// The meters and the record hashes of the readings.
fn meters_and_hashes(records: &Vec<VerifiedRecord>) -> (r: (Vec<String>, Vec<String>))
    ensures
        texts(r.0@) == meters(record_views(records@)),
        texts(r.1@) == record_hashes(record_views(records@)),
{
    let mut ids: Vec<String> = Vec::new();
    let mut hashes: Vec<String> = Vec::new();
    let mut i: usize = 0;
    while i < records.len()
        invariant
            i <= records.len(),
            ids.len() == i,
            hashes.len() == i,
            forall|k: int| 0 <= k < i ==> (#[trigger] ids@[k])@ == records@[k]@.record.meter_id,
            forall|k: int| 0 <= k < i ==> (#[trigger] hashes@[k])@ == records@[k]@.record_hash,
        decreases records.len() - i,
    {
        ids.push(records[i].record.meter_id.clone());
        hashes.push(records[i].record_hash.clone());
        i += 1;
    }
    assert(texts(ids@) =~= meters(record_views(records@)));
    assert(texts(hashes@) =~= record_hashes(record_views(records@)));
    (ids, hashes)
}

/// The top of the hour of `now`.
fn top_of_hour(now: i64) -> (start: i64)
    requires
        valid_instant(now as int),
    ensures
        start == hour_floor(now as int),
        start as int % (HOUR_MS as int) == 0,
        now - HOUR_MS < start <= now,
{
    if now >= 0 {
        now - now % HOUR_MS
    } else {
        let back: i64 = (-now) % HOUR_MS;
        if back == 0 {
            now
        } else {
            now - (HOUR_MS - back)
        }
    }
}

/// Whether the readings hold one of the meter and nonce of `record`.
fn holds_key(records: &Vec<VerifiedRecord>, record: &MeterRecord) -> (found: bool)
    ensures
        found == has_duplicate(record_views(records@), record@),
{
    let mut i: usize = 0;
    while i < records.len()
        invariant
            i <= records.len(),
            forall|k: int| 0 <= k < i ==> !same_key(#[trigger] record_views(records@)[k], record@),
        decreases records.len() - i,
    {
        if str_eq(records[i].record.meter_id.as_str(), record.meter_id.as_str()) && str_eq(
            records[i].record.nonce.as_str(),
            record.nonce.as_str(),
        ) {
            assert(same_key(record_views(records@)[i as int], record@));
            return true;
        }
        i += 1;
    }
    false
}

impl DataAggregator {
    /// The settings of the engine that bear on its rules.
    pub closed spec fn limits(&self) -> Limits {
        self.config.limits()
    }

    /// The settings are valid and the open window, if there is one, is one
    /// that the engine can hold.
    pub open spec fn wf(&self) -> bool {
        &&& 0 < self.limits().window_ms <= MAX_WINDOW_SEC * 1000
        &&& self.limits().capacity > 0
        &&& self.limits().multiplier > 0
        &&& self@.window matches Some(w) ==> window_ok(w, self.limits())
    }

    /// An engine without a window, all counters at zero.
    pub fn new(config: Config) -> (r: Self)
        requires
            config.valid(),
        ensures
            r.wf(),
            r.limits() == config.limits(),
            r@.window is None,
            r@.stats == AggregatorStats::zero(),
    {
        DataAggregator { config, crypto: CryptoService::new(), current_window: None, stats: AggregatorStats::default() }
    }

    /// Handles a submission at the current instant, under fresh identifiers
    /// for the receipt and for the proof of a window that it closes.
    pub fn process_record(&mut self, record: MeterRecord, signature: String) -> (r: Result<
        IngestStep,
        AggregatorError,
    >)
        requires
            old(self).wf(),
        ensures
            final(self).wf(),
            final(self).limits() == old(self).limits(),
            exists|now: i64, receipt_id: u128, proof_id: u128|
                valid_instant(now as int) && #[trigger] admission(
                    old(self)@,
                    old(self).limits(),
                    record@,
                    signature@,
                    now,
                    receipt_id,
                    proof_id,
                    final(self)@,
                    outcome_view(r),
                ),
            r matches Ok(IngestStep::WriteProof { proof: data, pending }) ==> proof_sound(data@) && valid_instant(
                pending.now as int,
            ),
    {
        let now = now_millis();
        let receipt_id = fresh_id();
        let proof_id = fresh_id();
        self.ingest(record, signature, now, receipt_id, proof_id)
    }

    /// Takes a submission up again at the current instant, after the proof of
    /// the window that it closed was to be written: `written` says whether it
    /// was.
    pub fn resume_record(&mut self, pending: PendingIngest, written: bool) -> (r: Result<IngestStep, AggregatorError>)
        requires
            old(self).wf(),
            valid_instant(pending.now as int),
        ensures
            final(self).wf(),
            final(self).limits() == old(self).limits(),
            exists|written_at: i64, proof_id: u128|
                valid_instant(written_at as int) && #[trigger] resumption(
                    old(self)@,
                    old(self).limits(),
                    pending@,
                    written,
                    written_at,
                    proof_id,
                    final(self)@,
                    outcome_view(r),
                ),
            r matches Ok(IngestStep::WriteProof { proof: data, pending: again }) ==> proof_sound(data@)
                && valid_instant(again.now as int),
    {
        let written_at = now_millis();
        let proof_id = fresh_id();
        self.resume_ingest(pending, written, written_at, proof_id)
    }

    /// Takes a submission up again after the proof of the window that it
    /// closed was to be written, by the rule of resumption.
    pub fn resume_ingest(&mut self, pending: PendingIngest, written: bool, written_at: i64, proof_id: u128) -> (r:
        Result<IngestStep, AggregatorError>)
        requires
            old(self).wf(),
            valid_instant(pending.now as int),
        ensures
            final(self).wf(),
            final(self).limits() == old(self).limits(),
            resumption(
                old(self)@,
                old(self).limits(),
                pending@,
                written,
                written_at,
                proof_id,
                final(self)@,
                outcome_view(r),
            ),
            r matches Ok(IngestStep::WriteProof { proof: data, pending: again }) ==> proof_sound(data@)
                && valid_instant(again.now as int),
    {
        match self.proof_written(written, written_at) {
            Err(e) => {
                return Err(e);
            },
            Ok(()) => {},
        }
        self.ingest(pending.record, pending.signature, pending.now, pending.receipt_id, proof_id)
    }

    /// Takes note of the outcome of writing a proof: a proof that was
    /// written, at `now`, is counted; one that was not is an error, and
    /// nothing is counted.
    pub fn proof_written(&mut self, written: bool, now: i64) -> (r: Result<(), AggregatorError>)
        requires
            old(self).wf(),
        ensures
            final(self).wf(),
            final(self).limits() == old(self).limits(),
            final(self)@.window == old(self)@.window,
            written ==> r is Ok && final(self)@.stats == proof_counted(old(self)@.stats, now),
            !written ==> r == Err::<(), AggregatorError>(AggregatorError::Persistence) && final(self)@.stats == old(
                self,
            )@.stats,
    {
        if written {
            self.stats.total_proofs_generated = raise(self.stats.total_proofs_generated, 1);
            self.stats.last_proof_generated = Some(now);
            Ok(())
        } else {
            Err(AggregatorError::Persistence)
        }
    }

    /// Handles the submission of `record` with `signature` at the instant
    /// `now`, by the rule of admission.
    pub fn ingest(&mut self, record: MeterRecord, signature: String, now: i64, receipt_id: u128, proof_id: u128) -> (r:
        Result<IngestStep, AggregatorError>)
        requires
            old(self).wf(),
            valid_instant(now as int),
        ensures
            final(self).wf(),
            final(self).limits() == old(self).limits(),
            admission(
                old(self)@,
                old(self).limits(),
                record@,
                signature@,
                now,
                receipt_id,
                proof_id,
                final(self)@,
                outcome_view(r),
            ),
            r matches Ok(IngestStep::WriteProof { proof: data, pending }) ==> proof_sound(data@) && valid_instant(
                pending.now as int,
            ),
    {
        match validate_record_at(&record, now) {
            Err(e) => {
                return Err(AggregatorError::Validation(e));
            },
            Ok(()) => {},
        }
        if self.config.enable_signature_verification && !self.crypto.verify_signature(&record, signature.as_str()) {
            self.stats.records_rejected_signature = raise(self.stats.records_rejected_signature, 1);
            return Err(AggregatorError::InvalidSignature);
        }
        let record_hash = self.crypto.create_record_hash(&record);
        let due = match &self.current_window {
            Some(w) => w.window_end <= now,
            None => true,
        };
        let mut emitted: Option<ProofData> = None;
        if due {
            emitted = self.finalize_at(proof_id, now);
        } else {
            let (duplicate, full) = match &self.current_window {
                Some(w) => (holds_key(&w.records, &record), w.records.len() >= self.config.max_records_per_window),
                None => (false, false),
            };
            if duplicate {
                self.stats.records_rejected_duplicate = raise(self.stats.records_rejected_duplicate, 1);
                return Err(AggregatorError::Duplicate);
            }
            if full {
                emitted = self.finalize_at(proof_id, now);
            }
        }
        match emitted {
            Some(data) => {
                return Ok(
                    IngestStep::WriteProof { proof: data, pending: PendingIngest { record, signature, now, receipt_id } },
                );
            },
            None => {},
        }
        self.ensure_current_window(now);
        let mut taken: Option<AggregationWindow> = None;
        std::mem::swap(&mut self.current_window, &mut taken);
        let mut window = taken.unwrap();
        let ghost before = window@;
        let entry = VerifiedRecord { record, signature, verification_timestamp: now, record_hash };
        let ghost added = entry@;
        window.records.push(entry);
        proof {
            lemma_no_failure_iff_valid(added.record, now as int);
            assert(window@.records =~= before.records.push(added));
            assert(!has_duplicate(before.records, added.record));
            assert forall|i: int, j: int| 0 <= i < j < window@.records.len() implies !same_key(
                #[trigger] window@.records[i],
                (#[trigger] window@.records[j]).record,
            ) by {
                if j < before.records.len() {
                    assert(!same_key(before.records[i], before.records[j].record));
                } else {
                    assert(!same_key(before.records[i], added.record));
                }
            }
            assert forall|i: int| 0 <= i < window@.records.len() implies admitted(
                #[trigger] window@.records[i],
                self.limits().verify_signatures,
            ) by {
                if i < before.records.len() {
                    assert(admitted(before.records[i], self.limits().verify_signatures));
                }
            }
        }
        self.current_window = Some(window);
        self.stats.total_records_processed = raise(self.stats.total_records_processed, 1);
        Ok(IngestStep::Admitted { receipt_id })
    }

    /// Opens a new window at `now` where none is open or the open one has
    /// ended.
    fn ensure_current_window(&mut self, now: i64)
        requires
            old(self).wf(),
            valid_instant(now as int),
        ensures
            final(self).wf(),
            final(self).limits() == old(self).limits(),
            final(self)@.stats == old(self)@.stats,
            final(self)@.window == (if rotation_due(old(self)@.window, now) {
                Some(fresh_window(now as int, old(self).limits()))
            } else {
                old(self)@.window
            }),
    {
        let due = match &self.current_window {
            Some(w) => w.window_end <= now,
            None => true,
        };
        if due {
            self.start_new_window(now);
        }
    }

    /// Opens a new window at `now`: it starts at the top of the hour and has
    /// the configured length.
    fn start_new_window(&mut self, now: i64)
        requires
            old(self).wf(),
            valid_instant(now as int),
        ensures
            final(self).wf(),
            final(self).limits() == old(self).limits(),
            final(self)@.stats == old(self)@.stats,
            final(self)@.window == Some(fresh_window(now as int, old(self).limits())),
    {
        let window_start = top_of_hour(now);
        let window_end = window_start + (self.config.agg_window_sec * 1000) as i64;
        self.current_window = Some(AggregationWindow { window_start, window_end, records: Vec::new() });
        proof {
            assert(record_views(Seq::<VerifiedRecord>::empty()) =~= Seq::<VerifiedRecordView>::empty());
        }
    }

    /// Closes the open window at the current instant, under a fresh
    /// identifier for its proof. The proof that comes back is to be written,
    /// and `proof_written` to be told of the outcome.
    pub fn finalize_current_window(&mut self) -> (r: Option<ProofData>)
        requires
            old(self).wf(),
        ensures
            final(self).wf(),
            final(self).limits() == old(self).limits(),
            final(self)@.window is None,
            old(self)@.window is None ==> r is None && final(self)@.stats == old(self)@.stats,
            old(self)@.window matches Some(w) ==> final(self)@.stats == stats_after_close(
                old(self)@.stats,
                w,
                old(self).limits(),
            ) && exists|now: i64, proof_id: u128|
                valid_instant(now as int) && #[trigger] emitted_by(option_view(r), w, old(self).limits(), proof_id, now),
            r matches Some(p) ==> proof_sound(p@),
    {
        let now = now_millis();
        let proof_id = fresh_id();
        self.finalize_at(proof_id, now)
    }

    /// Closes the open window at `now`: the window is gone, and where the
    /// outlier test keeps a reading of it, the proof over the kept readings
    /// is handed out under the identifier `proof_id`, to be written. The
    /// proof is counted by `proof_written`, once it has been written.
    pub fn finalize_at(&mut self, proof_id: u128, now: i64) -> (r: Option<ProofData>)
        requires
            old(self).wf(),
        ensures
            final(self).wf(),
            final(self).limits() == old(self).limits(),
            final(self)@.window is None,
            old(self)@.window is None ==> r is None && final(self)@.stats == old(self)@.stats,
            old(self)@.window matches Some(w) ==> final(self)@.stats == stats_after_close(
                old(self)@.stats,
                w,
                old(self).limits(),
            ) && emitted_by(option_view(r), w, old(self).limits(), proof_id, now),
            r matches Some(p) ==> proof_sound(p@),
    {
        let mut taken: Option<AggregationWindow> = None;
        std::mem::swap(&mut self.current_window, &mut taken);
        let window = match taken {
            Some(window) => window,
            None => {
                return None;
            },
        };
        proof {
            lemma_kept_of_window(window@, self.limits());
        }
        let kept = self.filter_outliers(&window.records);
        if kept.len() == 0 {
            return None;
        }
        // The tree cannot fail: there is a reading, and the hash of every
        // reading of the window is hexadecimal text.
        let p = self.generate_proof(&window, kept, proof_id, now).unwrap();
        Some(p)
    }

    /// The readings that the outlier test keeps of `records`; the readings
    /// that it drops are counted.
    fn filter_outliers(&mut self, records: &Vec<VerifiedRecord>) -> (kept: Vec<VerifiedRecord>)
        ensures
            record_views(kept@) == kept_records(record_views(records@), old(self).limits().multiplier),
            final(self).limits() == old(self).limits(),
            final(self)@.window == old(self)@.window,
            final(self)@.stats == (AggregatorStats {
                records_rejected_outlier: raised(
                    old(self)@.stats.records_rejected_outlier,
                    records.len() - kept.len(),
                ),
                ..old(self)@.stats
            }),
            kept.len() <= records.len(),
    {
        let values = energies_of(records);
        let mask = self.crypto.detect_outliers(values.as_slice(), self.config.outlier_threshold_multiplier);
        let kept = keep_unmasked(records, &mask);
        proof {
            lemma_unmasked_shape(record_views(records@), mask@);
        }
        self.stats.records_rejected_outlier = raise(self.stats.records_rejected_outlier, records.len() - kept.len());
        kept
    }

    /// The proof over `records` for `window`, made at `now` under the
    /// identifier `proof_id`.
    ///
    /// Fails where no reading is given, and where two or more are given and a
    /// record hash among them is not hexadecimal text.
    fn generate_proof(&self, window: &AggregationWindow, records: Vec<VerifiedRecord>, proof_id: u128, now: i64) -> (r:
        Result<ProofData, MerkleError>)
        ensures
            records.len() == 0 ==> r == Err::<ProofData, MerkleError>(MerkleError::EmptyLeaves),
            records.len() >= 2 && !all_hex(record_hashes(record_views(records@))) ==> r == Err::<
                ProofData,
                MerkleError,
            >(MerkleError::InvalidHex),
            records.len() == 1 || (records.len() >= 2 && all_hex(record_hashes(record_views(records@)))) ==> (r matches Ok(
                p,
            ) && describes(p@, record_views(records@), window.window_start, window.window_end, proof_id, now)),
    {
        let aggregate_kwh = total_energy(&records);
        let (ids, hashes) = meters_and_hashes(&records);
        let meter_ids = sorted_set(&ids);
        let tree = match MerkleTree::new(hashes) {
            Ok(tree) => tree,
            Err(e) => {
                return Err(e);
            },
        };
        let p = ProofData {
            proof_id,
            aggregate_kwh,
            merkle_root: tree.root,
            window_start: window.window_start,
            window_end: window.window_end,
            record_count: records.len(),
            meter_ids,
            generated_at: now,
            version: "1.0.0".to_owned(),
        };
        proof {
            assert(p@.meter_ids =~= texts(p.meter_ids@));
        }
        Ok(p)
    }

    /// The latest proof, where `stored` is what the store holds of it:
    /// nothing, a proof, or something that cannot be understood. That there
    /// is no proof yet is no error.
    pub fn get_latest_proof(&self, stored: Option<Option<ProofData>>) -> (r: Result<Option<ProofData>, AggregatorError>)
        ensures
            r == match stored {
                None => Ok::<Option<ProofData>, AggregatorError>(None),
                Some(Some(p)) => Ok::<Option<ProofData>, AggregatorError>(Some(p)),
                Some(None) => Err::<Option<ProofData>, AggregatorError>(AggregatorError::Retrieval),
            },
    {
        match stored {
            None => Ok(None),
            Some(Some(p)) => Ok(Some(p)),
            Some(None) => Err(AggregatorError::Retrieval),
        }
    }

    /// The snapshot of the open window at the current instant, if there is
    /// one.
    pub fn get_window_status(&self) -> (r: Option<WindowStatus>)
        ensures
            exists|now: i64| valid_instant(now as int) && r == #[trigger] status_at(self@.window, now),
    {
        let now = now_millis();
        self.window_status_at(now)
    }

    /// The snapshot of the open window at the instant `now`, if there is one.
    pub fn window_status_at(&self, now: i64) -> (r: Option<WindowStatus>)
        ensures
            r == status_at(self@.window, now),
    {
        match &self.current_window {
            Some(w) => {
                let time_remaining_seconds: i64 = if w.window_end > now {
                    ((w.window_end as i128 - now as i128) / 1000) as i64
                } else {
                    0
                };
                Some(
                    WindowStatus {
                        window_start: w.window_start,
                        window_end: w.window_end,
                        records_collected: w.records.len(),
                        time_remaining_seconds,
                    },
                )
            },
            None => None,
        }
    }

    /// The counters.
    pub fn get_stats(&self) -> (s: &AggregatorStats)
        ensures
            *s == self@.stats,
    {
        &self.stats
    }

    /// Closes the open window whether or not it has ended.
    pub fn force_finalize(&mut self) -> (r: Option<ProofData>)
        requires
            old(self).wf(),
        ensures
            final(self).wf(),
            final(self).limits() == old(self).limits(),
            final(self)@.window is None,
            old(self)@.window is None ==> r is None && final(self)@.stats == old(self)@.stats,
            old(self)@.window matches Some(w) ==> final(self)@.stats == stats_after_close(
                old(self)@.stats,
                w,
                old(self).limits(),
            ) && exists|now: i64, proof_id: u128|
                valid_instant(now as int) && #[trigger] emitted_by(option_view(r), w, old(self).limits(), proof_id, now),
            r matches Some(p) ==> proof_sound(p@),
    {
        if self.current_window.is_some() {
            self.finalize_current_window()
        } else {
            None
        }
    }
}

/// Every reading in the open window kept every rule of admission at the
/// instant of its admission.
pub proof fn lemma_window_readings_valid(engine: DataAggregator, i: int)
    requires
        engine.wf(),
        engine@.window is Some,
        0 <= i < engine@.window->0.records.len(),
    ensures
        record_valid(engine@.window->0.records[i].record, engine@.window->0.records[i].verification_timestamp as int),
        validation_failure(
            engine@.window->0.records[i].record,
            engine@.window->0.records[i].verification_timestamp as int,
        ) is None,
{
    let r = engine@.window->0.records[i];
    assert(admitted(r, engine.limits().verify_signatures));
    lemma_no_failure_iff_valid(r.record, r.verification_timestamp as int);
}

/// No two readings in the open window share meter and nonce.
pub proof fn lemma_window_keys_unique(engine: DataAggregator, i: int, j: int)
    requires
        engine.wf(),
        engine@.window is Some,
        0 <= i < engine@.window->0.records.len(),
        0 <= j < engine@.window->0.records.len(),
        i != j,
    ensures
        !(engine@.window->0.records[i].record.meter_id == engine@.window->0.records[j].record.meter_id
            && engine@.window->0.records[i].record.nonce == engine@.window->0.records[j].record.nonce),
{
    let w = engine@.window->0;
    if i < j {
        assert(!same_key(w.records[i], w.records[j].record));
    } else {
        assert(!same_key(w.records[j], w.records[i].record));
    }
}

} // verus!
