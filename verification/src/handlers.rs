//! What a request is answered with: the decisions of the service between the
//! transport and the engine.

use vstd::prelude::*;
use vstd::string::StringExecFns;
use crate::aggregator::{
    admission, outcome_view, resumption, AggregatorError, AggregatorStats, DataAggregator, IngestStep, IngestStepView,
    PendingIngest,
};
use crate::clock::{now_millis, valid_instant};
use crate::config::Config;
use crate::models::{
    ErrorResponse, HealthResponse, IngestResponse, ProofData, SealRequest, SealResponse, SignedMeterData,
    StatusConfig, StatusResponse, WindowStatus,
};
use crate::validation::ValidationError;

verus! {

/// The HTTP status of an answer.
pub const OK: u16 = 200;

pub const BAD_REQUEST: u16 = 400;

pub const UNAUTHORIZED: u16 = 401;

pub const NOT_FOUND: u16 = 404;

pub const CONFLICT: u16 = 409;

pub const INTERNAL_SERVER_ERROR: u16 = 500;

pub const NOT_IMPLEMENTED: u16 = 501;

/// The code under which an error is reported.
pub open spec fn code_of(e: AggregatorError) -> Seq<char> {
    match e {
        AggregatorError::Validation(_) => "validation_error"@,
        AggregatorError::InvalidSignature => "invalid_signature"@,
        AggregatorError::Duplicate => "duplicate"@,
        AggregatorError::Persistence => "persistence_error"@,
        AggregatorError::Merkle(_) => "merkle_error"@,
        AggregatorError::Retrieval => "retrieval_error"@,
    }
}

/// The HTTP status with which an error is answered: what the submitter got
/// wrong is a client error, everything else a server error.
pub open spec fn status_of(e: AggregatorError) -> u16 {
    match e {
        AggregatorError::Validation(_) => BAD_REQUEST,
        AggregatorError::InvalidSignature => UNAUTHORIZED,
        AggregatorError::Duplicate => CONFLICT,
        AggregatorError::Persistence => INTERNAL_SERVER_ERROR,
        AggregatorError::Merkle(_) => INTERNAL_SERVER_ERROR,
        AggregatorError::Retrieval => INTERNAL_SERVER_ERROR,
    }
}

/// An error in words.
pub open spec fn message_of(e: AggregatorError) -> Seq<char> {
    match e {
        AggregatorError::Validation(v) => match v {
            ValidationError::EmptyMeterId => "meter_id cannot be empty"@,
            ValidationError::EmptyNonce => "nonce cannot be empty"@,
            ValidationError::TimestampTooOld => "timestamp too old (>24 hours)"@,
            ValidationError::TimestampTooFarInFuture => "timestamp too far in future (>5 minutes)"@,
            ValidationError::NonPositiveKwhDelta => "kwh_delta must be positive"@,
            ValidationError::KwhDeltaTooLarge => "kwh_delta too large (>1000 kWh)"@,
            ValidationError::MeterIdTooLong => "meter_id too long (>100 characters)"@,
            ValidationError::NonceNotHex => "nonce must be hexadecimal"@,
            ValidationError::NonceWrongLength => "nonce must be 32 hex characters"@,
        },
        AggregatorError::InvalidSignature => "Invalid signature"@,
        AggregatorError::Duplicate => "Duplicate record (same meter_id and nonce)"@,
        AggregatorError::Persistence => "Proof could not be written"@,
        AggregatorError::Merkle(_) => "Merkle tree could not be built"@,
        AggregatorError::Retrieval => "Latest proof could not be read"@,
    }
}

impl AggregatorError {
    /// The code under which the error is reported.
    pub fn code(&self) -> (code: &'static str)
        ensures
            code@ == code_of(*self),
    {
        match self {
            AggregatorError::Validation(_) => "validation_error",
            AggregatorError::InvalidSignature => "invalid_signature",
            AggregatorError::Duplicate => "duplicate",
            AggregatorError::Persistence => "persistence_error",
            AggregatorError::Merkle(_) => "merkle_error",
            AggregatorError::Retrieval => "retrieval_error",
        }
    }

    /// The HTTP status with which the error is answered.
    pub fn status(&self) -> (status: u16)
        ensures
            status == status_of(*self),
    {
        match self {
            AggregatorError::Validation(_) => BAD_REQUEST,
            AggregatorError::InvalidSignature => UNAUTHORIZED,
            AggregatorError::Duplicate => CONFLICT,
            _ => INTERNAL_SERVER_ERROR,
        }
    }

    /// The error in words.
    pub fn message(&self) -> (text: &'static str)
        ensures
            text@ == message_of(*self),
    {
        match self {
            AggregatorError::Validation(v) => v.message(),
            AggregatorError::InvalidSignature => "Invalid signature",
            AggregatorError::Duplicate => "Duplicate record (same meter_id and nonce)",
            AggregatorError::Persistence => "Proof could not be written",
            AggregatorError::Merkle(_) => "Merkle tree could not be built",
            AggregatorError::Retrieval => "Latest proof could not be read",
        }
    }
}

/// The answer to a request that was turned down with `e` at `now`.
pub fn error_response(e: AggregatorError, now: i64) -> (r: ErrorResponse)
    ensures
        r.error@ == (if e is Validation {
            "Invalid meter record"@
        } else {
            "Failed to process meter data"@
        }),
        r.code@ == code_of(e),
        r.timestamp == now,
        r.details matches Some(d) && d@ == message_of(e),
{
    let error = match e {
        AggregatorError::Validation(_) => "Invalid meter record",
        _ => "Failed to process meter data",
    };
    ErrorResponse {
        error: error.to_owned(),
        code: e.code().to_owned(),
        timestamp: now,
        details: Some(e.message().to_owned()),
    }
}

/// The answer to a health query at `now`.
pub fn health_check(now: i64) -> (r: HealthResponse)
    ensures
        r.status@ == "healthy"@,
        r.timestamp == now,
        r.uptime_seconds == (if now >= 0 {
            now / 1000
        } else {
            0
        }),
        r.version@ == "1.0.0"@,
{
    let uptime_seconds: u64 = if now >= 0 {
        (now / 1000) as u64
    } else {
        0
    };
    HealthResponse { status: "healthy".to_owned(), timestamp: now, uptime_seconds, version: "1.0.0".to_owned() }
}

/// The answer to a status query: the counters, the open window and the
/// settings that a status shows.
pub fn get_status(stats: &AggregatorStats, current_window: Option<WindowStatus>, config: &Config) -> (r: StatusResponse)
    ensures
        r.status@ == "running"@,
        r.current_window == current_window,
        r.total_records_processed == stats.total_records_processed,
        r.total_proofs_generated == stats.total_proofs_generated,
        r.last_proof_generated == stats.last_proof_generated,
        r.configuration == (StatusConfig {
            agg_window_sec: config.agg_window_sec,
            max_records_per_window: config.max_records_per_window,
            enable_signature_verification: config.enable_signature_verification,
        }),
{
    StatusResponse {
        status: "running".to_owned(),
        current_window,
        total_records_processed: stats.total_records_processed,
        total_proofs_generated: stats.total_proofs_generated,
        last_proof_generated: stats.last_proof_generated,
        configuration: StatusConfig {
            agg_window_sec: config.agg_window_sec,
            max_records_per_window: config.max_records_per_window,
            enable_signature_verification: config.enable_signature_verification,
        },
    }
}

/// What a submission is answered with, or what is to be done before it can
/// be answered.
#[derive(Debug)]
pub enum IngestReply {
    /// The reading was admitted.
    Accepted { response: IngestResponse },
    /// The reading was turned down, or the proof of the window that it closed
    /// could not be written.
    Rejected { status: u16, error: ErrorResponse },
    /// The submission closed a window that left a proof. The proof is to be
    /// written and `ingest_written` to be told of the outcome: its reply
    /// answers the submission.
    WriteProof { proof: ProofData, pending: PendingIngest },
}

/// Whether `reply` answers a submission whose outcome is `outcome`: an
/// admitted reading is accepted under its receipt, a submission that failed
/// is rejected with the status and the code of its error, and a proof that
/// is to be written is handed on with the submission that waits for it.
pub open spec fn answers(reply: IngestReply, outcome: Result<IngestStepView, AggregatorError>) -> bool {
    match outcome {
        Ok(IngestStepView::Admitted { receipt_id }) => reply matches IngestReply::Accepted { response }
            && response.success && response.receipt_id == receipt_id,
        Ok(IngestStepView::WriteProof { proof: data, pending }) => reply matches IngestReply::WriteProof {
            proof: handed,
            pending: waiting,
        } && handed@ == data && waiting@ == pending,
        Err(e) => reply matches IngestReply::Rejected { status, error } && status == status_of(e) && error.code@
            == code_of(e),
    }
}

/// The answer at `now` to a submission whose outcome is `outcome`.
pub fn ingest_reply(outcome: Result<IngestStep, AggregatorError>, now: i64) -> (reply: IngestReply)
    ensures
        match outcome {
            Ok(IngestStep::Admitted { receipt_id }) => reply matches IngestReply::Accepted { response }
                && response.success && response.message@ == "Data ingested successfully"@ && response.timestamp
                == now && response.receipt_id == receipt_id,
            Ok(IngestStep::WriteProof { proof: data, pending }) => reply == (IngestReply::WriteProof {
                proof: data,
                pending,
            }),
            Err(e) => reply matches IngestReply::Rejected { status, error } && status == status_of(e)
                && error.code@ == code_of(e) && error.timestamp == now && (error.details matches Some(d)
                && d@ == message_of(e)),
        },
        answers(reply, outcome_view(outcome)),
{
    match outcome {
        Ok(IngestStep::Admitted { receipt_id }) => IngestReply::Accepted {
            response: IngestResponse {
                success: true,
                message: "Data ingested successfully".to_owned(),
                timestamp: now,
                receipt_id,
            },
        },
        Ok(IngestStep::WriteProof { proof: data, pending }) => IngestReply::WriteProof { proof: data, pending },
        Err(e) => IngestReply::Rejected { status: e.status(), error: error_response(e, now) },
    }
}

/// Submits a signed reading to the engine at the current instant and gives
/// the reply.
pub fn ingest_data(aggregator: &mut DataAggregator, payload: SignedMeterData) -> (reply: IngestReply)
    requires
        old(aggregator).wf(),
    ensures
        final(aggregator).wf(),
        final(aggregator).limits() == old(aggregator).limits(),
        exists|now: i64, receipt_id: u128, proof_id: u128, outcome: Result<IngestStepView, AggregatorError>|
            valid_instant(now as int) && #[trigger] admission(
                old(aggregator)@,
                old(aggregator).limits(),
                payload.record@,
                payload.sig@,
                now,
                receipt_id,
                proof_id,
                final(aggregator)@,
                outcome,
            ) && answers(reply, outcome),
        reply matches IngestReply::WriteProof { proof: data, pending } ==> valid_instant(pending.now as int),
{
    let outcome = aggregator.process_record(payload.record, payload.sig);
    let now = now_millis();
    ingest_reply(outcome, now)
}

/// Takes a submission up again after the proof of the window that it closed
/// was to be written, and gives the reply: `written` says whether the proof
/// was written.
pub fn ingest_written(aggregator: &mut DataAggregator, pending: PendingIngest, written: bool) -> (reply: IngestReply)
    requires
        old(aggregator).wf(),
        valid_instant(pending.now as int),
    ensures
        final(aggregator).wf(),
        final(aggregator).limits() == old(aggregator).limits(),
        exists|written_at: i64, proof_id: u128, outcome: Result<IngestStepView, AggregatorError>|
            valid_instant(written_at as int) && #[trigger] resumption(
                old(aggregator)@,
                old(aggregator).limits(),
                pending@,
                written,
                written_at,
                proof_id,
                final(aggregator)@,
                outcome,
            ) && answers(reply, outcome),
        reply matches IngestReply::WriteProof { proof: data, pending: again } ==> valid_instant(again.now as int),
{
    let outcome = aggregator.resume_record(pending, written);
    let now = now_millis();
    ingest_reply(outcome, now)
}

/// What a query for the latest proof is answered with.
#[derive(Debug)]
pub enum ProofReply {
    /// The latest proof.
    Found(ProofData),
    /// There is no proof, or it could not be read.
    Missing { status: u16, response: ErrorResponse },
}

/// The answer at `now` to a query for the latest proof, where `latest` is
/// what was read: a proof, nothing because none was written yet, or an error
/// because what was written could not be read.
pub fn get_latest_proof(latest: Result<Option<ProofData>, AggregatorError>, now: i64) -> (reply: ProofReply)
    ensures
        match latest {
            Ok(Some(p)) => reply == ProofReply::Found(p),
            Ok(None) => reply matches ProofReply::Missing { status, response } && status == NOT_FOUND
                && response.code@ == "no_proofs"@ && response.error@ == "No proofs available"@
                && response.timestamp == now && response.details is None,
            Err(e) => reply matches ProofReply::Missing { status, response } && status == INTERNAL_SERVER_ERROR
                && response.code@ == "retrieval_error"@ && response.error@ == "Failed to retrieve proof"@
                && response.timestamp == now && (response.details matches Some(d) && d@ == message_of(e)),
        },
{
    match latest {
        Ok(Some(p)) => ProofReply::Found(p),
        Ok(None) => ProofReply::Missing {
            status: NOT_FOUND,
            response: ErrorResponse {
                error: "No proofs available".to_owned(),
                code: "no_proofs".to_owned(),
                timestamp: now,
                details: None,
            },
        },
        Err(e) => ProofReply::Missing {
            status: INTERNAL_SERVER_ERROR,
            response: ErrorResponse {
                error: "Failed to retrieve proof".to_owned(),
                code: "retrieval_error".to_owned(),
                timestamp: now,
                details: Some(e.message().to_owned()),
            },
        },
    }
}

/// What is said of a sealing that failed: the reason, where one is given.
pub open spec fn seal_failure(outcome: crate::seal::SealResponse) -> Seq<char> {
    match outcome.error {
        Some(e) => "Failed to seal proof: "@ + e@,
        None => "Failed to seal proof: "@,
    }
}

/// The answer to a request to seal the proof `proof_id` at `seal_endpoint`,
/// where `outcome` is what came of the sealing and `answer` is what the
/// gateway's answer came to, as JSON text: a sealing that succeeded is
/// answered with it, one that failed with the reason.
pub fn seal_response(outcome: &crate::seal::SealResponse, proof_id: u128, seal_endpoint: Option<String>, answer: String) -> (r:
    SealResponse)
    ensures
        r.success == outcome.success,
        r.proof_id == Some(proof_id),
        r.seal_endpoint == seal_endpoint,
        outcome.success ==> r.message@ == "Proof sealed successfully"@ && r.seal_response == Some(answer),
        !outcome.success ==> r.message@ == seal_failure(*outcome) && r.seal_response is None,
{
    if outcome.success {
        SealResponse {
            success: true,
            message: "Proof sealed successfully".to_owned(),
            proof_id: Some(proof_id),
            seal_endpoint,
            seal_response: Some(answer),
        }
    } else {
        let message = match &outcome.error {
            Some(e) => "Failed to seal proof: ".to_owned().concat(e.as_str()),
            None => "Failed to seal proof: ".to_owned(),
        };
        SealResponse { success: false, message, proof_id: Some(proof_id), seal_endpoint, seal_response: None }
    }
}

/// What is to be done with a request to seal a proof.
#[derive(Debug, Clone, Copy, PartialEq, Eq, Structural)]
pub enum SealDecision {
    /// A given proof is asked for, which is not offered.
    NotImplemented,
    /// The latest proof is to be sealed.
    SealLatest,
    /// The request names no proof.
    InvalidRequest,
}

/// What is to be done with a request to seal a proof: a request that names a
/// proof is not served, whatever else it says; one that asks for the latest
/// proof is; any other is invalid.
pub fn seal_proof(request: &SealRequest) -> (decision: SealDecision)
    ensures
        decision == (if request.proof_id is Some {
            SealDecision::NotImplemented
        } else if request.force_latest {
            SealDecision::SealLatest
        } else {
            SealDecision::InvalidRequest
        }),
{
    if request.proof_id.is_some() {
        SealDecision::NotImplemented
    } else if request.force_latest {
        SealDecision::SealLatest
    } else {
        SealDecision::InvalidRequest
    }
}

} // verus!
