//! Sealing a proof to a content-addressed storage gateway: what is sent to
//! the gateway and what is made of its answer. The sending itself is not part
//! of this crate.

use vstd::prelude::*;
use vstd::string::StringExecFns;
use crate::models::{ProofData, ProofDataView};
use crate::numtext::{decimal, decimal_string, kwh_string, kwh_text};

verus! {

/// The base64 text of `data` in the standard alphabet with padding, as the
/// `base64` crate writes it.
pub uninterp spec fn base64_text(data: Seq<u8>) -> Seq<char>;

/// The bytes that the base64 text `text` stands for, as the `base64` crate
/// reads it in the standard alphabet with padding; `None` where it reads
/// none.
pub uninterp spec fn base64_bytes(text: Seq<u8>) -> Option<Seq<u8>>;

/// The instant `millis`, in milliseconds since the Unix epoch, as a date and
/// time in UTC after RFC 3339, as the `chrono` crate writes it; `None` where
/// the instant lies outside the dates that it can express.
pub uninterp spec fn rfc3339_text(millis: i64) -> Option<Seq<char>>;

/// Calls `Engine::encode` of the `base64` crate on its `STANDARD` engine.
/// Trusted: the text is a function of `data` alone.
#[verifier::external_body]
fn base64_encode(data: &[u8]) -> (text: String)
    ensures
        text@ == base64_text(data@),
{
    base64::Engine::encode(&base64::engine::general_purpose::STANDARD, data)
}

/// Calls `Engine::decode` of the `base64` crate on its `STANDARD` engine.
/// Trusted: the outcome is a function of `text` alone.
#[verifier::external_body]
fn base64_decode(text: &[u8]) -> (data: Option<Vec<u8>>)
    ensures
        data matches Some(d) ==> base64_bytes(text@) == Some(d@),
        data is None ==> base64_bytes(text@) is None,
{
    match base64::Engine::decode(&base64::engine::general_purpose::STANDARD, text) {
        Ok(data) => Some(data),
        Err(_) => None,
    }
}

/// Calls `DateTime::from_timestamp_millis` and, on the date that comes back,
/// `DateTime::to_rfc3339`, both of the `chrono` crate. Trusted: the outcome
/// is a function of `millis` alone.
#[verifier::external_body]
fn rfc3339(millis: i64) -> (text: Option<String>)
    ensures
        text matches Some(t) ==> rfc3339_text(millis) == Some(t@),
        text is None ==> rfc3339_text(millis) is None,
{
    match chrono::DateTime::from_timestamp_millis(millis) {
        Some(instant) => Some(instant.to_rfc3339()),
        None => None,
    }
}

/// What is sent to the gateway to store a blob.
#[derive(Debug)]
pub struct WalrusUploadRequest {
    /// The blob in base64.
    pub data: String,
    pub epochs: u32,
    pub deletable: bool,
}

/// What the gateway answers to an upload.
#[derive(Debug)]
pub struct WalrusUploadResponse {
    pub blob_id: String,
    pub cost: u64,
    pub event: WalrusEvent,
}

/// The event that an upload left on the ledger.
#[derive(Debug)]
pub struct WalrusEvent {
    pub tx_digest: String,
    pub event_seq: u64,
}

/// A proof with what is said about it, as it is sealed.
#[derive(Debug)]
pub struct SealRequest {
    pub proof_data: ProofData,
    /// Names and values, in the order in which `prepare_seal_data` lists
    /// them; no name occurs twice. On the wire this is a JSON object.
    pub metadata: Vec<(String, String)>,
}

/// What came of sealing a proof.
#[derive(Debug)]
pub struct SealResponse {
    pub success: bool,
    pub blob_id: Option<String>,
    pub walrus_url: Option<String>,
    pub tx_digest: Option<String>,
    pub cost: Option<u64>,
    pub error: Option<String>,
}

/// The addresses of the gateway and the number of epochs for which a blob is
/// to be stored.
#[derive(Debug)]
pub struct WalrusClient {
    publisher_url: String,
    gateway_url: String,
    default_epochs: u32,
}

/// The gas that storing one megabyte for one epoch is reckoned to cost.
pub const BASE_COST_PER_MB: u64 = 1000;

/// The number of whole seconds since the Unix epoch at an instant.
pub open spec fn seconds_of(millis: i64) -> int {
    millis as int / 1000
}

/// The names and values that are said about a proof: the schema version, the
/// source, the kind of proof, the instant at which the proof was generated
/// (where it can be expressed as a date), the length of its window in
/// seconds, the number of its readings and its energy in kilowatt-hours.
pub open spec fn metadata_of(p: ProofDataView) -> Seq<(Seq<char>, Seq<char>)> {
    let head = seq![
        ("version"@, "1.0.0"@),
        ("source"@, "GreenShare-ROFL"@),
        ("proof_type"@, "aggregated_meter_data"@),
    ];
    let stamp = match rfc3339_text(p.generated_at) {
        Some(t) => seq![("generation_timestamp"@, t)],
        None => seq![],
    };
    let tail = seq![
        ("window_duration_sec"@, decimal(seconds_of(p.window_end) - seconds_of(p.window_start))),
        ("record_count"@, decimal(p.record_count as int)),
        ("total_kwh"@, kwh_text(p.aggregate_kwh as int)),
    ];
    head + stamp + tail
}

/// Whether no name occurs twice in the list.
pub open spec fn distinct_names(pairs: Seq<(Seq<char>, Seq<char>)>) -> bool {
    forall|i: int, j: int| 0 <= i < j < pairs.len() ==> (#[trigger] pairs[i]).0 != (#[trigger] pairs[j]).0
}

/// No name occurs twice in what is said about a proof.
pub proof fn lemma_metadata_names_distinct(p: ProofDataView)
    ensures
        distinct_names(metadata_of(p)),
{
    reveal_strlit("version");
    reveal_strlit("source");
    reveal_strlit("proof_type");
    reveal_strlit("generation_timestamp");
    reveal_strlit("window_duration_sec");
    reveal_strlit("record_count");
    reveal_strlit("total_kwh");
    let pairs = metadata_of(p);
    assert forall|i: int, j: int| 0 <= i < j < pairs.len() implies (#[trigger] pairs[i]).0 != (#[trigger] pairs[j]).0 by {
        assert(pairs[i].0.len() != pairs[j].0.len());
    }
}

/// The names and values of a list, each by its characters.
pub open spec fn pairs_view(pairs: Seq<(String, String)>) -> Seq<(Seq<char>, Seq<char>)> {
    Seq::new(pairs.len(), |i: int| (pairs[i].0@, pairs[i].1@))
}

/// The number of whole seconds since the Unix epoch at an instant.
fn whole_seconds(millis: i64) -> (s: i64)
    ensures
        s == seconds_of(millis),
{
    if millis >= 0 {
        millis / 1000
    } else {
        let back: i64 = (-(millis + 1)) / 1000;
        -back - 1
    }
}

impl WalrusClient {
    pub fn new(publisher_url: String, gateway_url: String, default_epochs: u32) -> (client: Self)
        ensures
            client.publisher_url()@ == publisher_url@,
            client.gateway_url()@ == gateway_url@,
            client.epochs() == default_epochs,
    {
        WalrusClient { publisher_url, gateway_url, default_epochs }
    }

    /// The address to which blobs are sent.
    pub closed spec fn publisher_url(&self) -> String {
        self.publisher_url
    }

    /// The address from which blobs are read.
    pub closed spec fn gateway_url(&self) -> String {
        self.gateway_url
    }

    /// The number of epochs for which a blob is stored.
    pub closed spec fn epochs(&self) -> u32 {
        self.default_epochs
    }

    /// A proof with what is said about it.
    pub fn prepare_seal_data(&self, proof_data: &ProofData) -> (request: SealRequest)
        ensures
            request.proof_data@ == proof_data@,
            pairs_view(request.metadata@) == metadata_of(proof_data@),
            distinct_names(pairs_view(request.metadata@)),
    {
        let mut metadata: Vec<(String, String)> = Vec::new();
        metadata.push(("version".to_owned(), "1.0.0".to_owned()));
        metadata.push(("source".to_owned(), "GreenShare-ROFL".to_owned()));
        metadata.push(("proof_type".to_owned(), "aggregated_meter_data".to_owned()));
        match rfc3339(proof_data.generated_at) {
            Some(stamp) => {
                metadata.push(("generation_timestamp".to_owned(), stamp));
            },
            None => {},
        }
        let duration: i128 = whole_seconds(proof_data.window_end) as i128 - whole_seconds(proof_data.window_start) as i128;
        metadata.push(("window_duration_sec".to_owned(), decimal_string(duration)));
        metadata.push(("record_count".to_owned(), decimal_string(proof_data.record_count as i128)));
        metadata.push(("total_kwh".to_owned(), kwh_string(proof_data.aggregate_kwh)));
        proof {
            assert(pairs_view(metadata@) =~= metadata_of(proof_data@));
            lemma_metadata_names_distinct(proof_data@);
        }
        SealRequest { proof_data: proof_data.clone(), metadata }
    }

    /// What is sent to the gateway to store `json`, the JSON text of a proof
    /// with what is said about it: the text in base64, to be kept for the
    /// configured number of epochs and never to be deleted.
    pub fn upload_request(&self, json: &[u8]) -> (request: WalrusUploadRequest)
        ensures
            request.data@ == base64_text(json@),
            request.epochs == self.epochs(),
            !request.deletable,
    {
        WalrusUploadRequest { data: base64_encode(json), epochs: self.default_epochs, deletable: false }
    }

    /// The address to which a blob is sent.
    pub fn upload_url(&self) -> (url: String)
        ensures
            url@ == self.publisher_url()@ + "/v1/store"@,
    {
        self.publisher_url.clone().concat("/v1/store")
    }

    /// The address under which the blob `blob_id` is read.
    pub fn blob_url(&self, blob_id: &str) -> (url: String)
        ensures
            url@ == self.gateway_url()@ + "/v1/"@ + blob_id@,
    {
        self.gateway_url.clone().concat("/v1/").concat(blob_id)
    }

    /// What came of sealing a proof, where `upload` is the answer of the
    /// gateway or the reason why there is none.
    pub fn seal_proof(&self, upload: Result<WalrusUploadResponse, String>) -> (response: SealResponse)
        ensures
            match upload {
                Ok(answer) => response.success && (response.blob_id matches Some(id) && id@ == answer.blob_id@) && (
                response.walrus_url matches Some(url) && url@ == self.gateway_url()@ + "/v1/"@ + answer.blob_id@) && (
                response.tx_digest matches Some(d) && d@ == answer.event.tx_digest@) && response.cost == Some(
                    answer.cost,
                ) && response.error is None,
                Err(reason) => !response.success && response.blob_id is None && response.walrus_url is None
                    && response.tx_digest is None && response.cost is None && (response.error matches Some(e) && e@
                    == reason@),
            },
    {
        match upload {
            Ok(answer) => {
                let walrus_url = self.blob_url(answer.blob_id.as_str());
                SealResponse {
                    success: true,
                    blob_id: Some(answer.blob_id),
                    walrus_url: Some(walrus_url),
                    tx_digest: Some(answer.event.tx_digest),
                    cost: Some(answer.cost),
                    error: None,
                }
            },
            Err(reason) => SealResponse {
                success: false,
                blob_id: None,
                walrus_url: None,
                tx_digest: None,
                cost: None,
                error: Some(reason),
            },
        }
    }

    /// The JSON text of a sealed proof, where `body` is what the gateway
    /// holds of it: the text in base64. `None` where `body` is no base64
    /// text.
    pub fn retrieve_sealed_data(&self, body: &[u8]) -> (json: Option<Vec<u8>>)
        ensures
            json matches Some(j) ==> base64_bytes(body@) == Some(j@),
            json is None ==> base64_bytes(body@) is None,
    {
        base64_decode(body)
    }

    /// Whether what was read back from the gateway is the sealed proof
    /// `expected_proof_id`; nothing that was read back is no such proof.
    pub fn verify_seal(&self, retrieved: Option<&SealRequest>, expected_proof_id: u128) -> (same: bool)
        ensures
            same == (retrieved matches Some(request) && request.proof_data.proof_id == expected_proof_id),
    {
        match retrieved {
            Some(request) => request.proof_data.proof_id == expected_proof_id,
            None => false,
        }
    }

    /// The gas that storing `data_size_bytes` bytes is reckoned to cost: the
    /// base cost for each megabyte begun and each epoch; `None` where that is
    /// more than the largest number.
    pub fn estimate_cost(&self, data_size_bytes: u64) -> (cost: Option<u64>)
        ensures
            match cost {
                Some(c) => c == estimate(data_size_bytes, self.epochs()),
                None => estimate(data_size_bytes, self.epochs()) > u64::MAX,
            },
    {
        let megabytes: u64 = data_size_bytes / 1_000_000 + if data_size_bytes % 1_000_000 == 0 {
            0
        } else {
            1
        };
        assert(megabytes * BASE_COST_PER_MB <= u64::MAX);
        let per_epoch: u64 = megabytes * BASE_COST_PER_MB;
        let r = per_epoch.checked_mul(self.default_epochs as u64);
        assert(per_epoch * (self.default_epochs as u64) == estimate(data_size_bytes, self.epochs())) by (nonlinear_arith)
            requires
                per_epoch == megabytes * BASE_COST_PER_MB,
                megabytes == (data_size_bytes + 999_999) / 1_000_000,
                self.default_epochs == self.epochs(),
        ;
        r
    }
}

/// The gas that storing `bytes` bytes for `epochs` epochs is reckoned to
/// cost.
pub open spec fn estimate(bytes: u64, epochs: u32) -> int {
    ((bytes + 999_999) / 1_000_000) * BASE_COST_PER_MB * epochs
}

} // verus!
