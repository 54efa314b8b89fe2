//! The settings of the service.

use vstd::prelude::*;
use vstd::utf8::encode_utf8;
use crate::order::str_eq;

verus! {

/// The longest window that can be configured, in seconds.
pub const MAX_WINDOW_SEC: u64 = 9_000_000_000_000;

/// The settings of the service.
#[derive(Debug)]
pub struct Config {
    pub host: String,
    pub port: u16,
    /// Length of a window in seconds.
    pub agg_window_sec: u64,
    pub output_dir: String,
    pub seal_endpoint: Option<String>,
    /// Number of readings after which a window is closed.
    pub max_records_per_window: usize,
    /// The multiplier of the outlier test, in thousandths. It is read from
    /// decimal text with at most three decimals and without an exponent.
    pub outlier_threshold_multiplier: u32,
    pub enable_signature_verification: bool,
}

/// The settings that bear on the rules of the engine.
pub struct Limits {
    /// Length of a window in milliseconds.
    pub window_ms: int,
    pub capacity: usize,
    pub multiplier: u32,
    pub verify_signatures: bool,
}

impl Config {
    /// The settings that bear on the rules of the engine.
    pub open spec fn limits(&self) -> Limits {
        Limits {
            window_ms: self.agg_window_sec * 1000,
            capacity: self.max_records_per_window,
            multiplier: self.outlier_threshold_multiplier,
            verify_signatures: self.enable_signature_verification,
        }
    }

    /// The window length and the capacity are positive, the multiplier is
    /// positive, and the window length is one that instants in milliseconds
    /// can hold.
    pub open spec fn valid(&self) -> bool {
        &&& 0 < self.agg_window_sec <= MAX_WINDOW_SEC
        &&& self.max_records_per_window > 0
        &&& self.outlier_threshold_multiplier > 0
    }

    /// Whether the settings are valid.
    pub fn is_valid(&self) -> (r: bool)
        ensures
            r == self.valid(),
    {
        0 < self.agg_window_sec && self.agg_window_sec <= MAX_WINDOW_SEC && self.max_records_per_window > 0
            && self.outlier_threshold_multiplier > 0
    }
}

/// Whether the byte is an ASCII decimal digit.
pub open spec fn is_digit(b: u8) -> bool {
    0x30 <= b <= 0x39
}

/// Whether every byte is a decimal digit.
pub open spec fn all_digits(text: Seq<u8>) -> bool {
    forall|i: int| 0 <= i < text.len() ==> is_digit(#[trigger] text[i])
}

/// The number that a sequence of decimal digits stands for.
pub open spec fn number_of(text: Seq<u8>) -> nat
    decreases text.len(),
{
    if text.len() == 0 {
        0
    } else {
        number_of(text.drop_last()) * 10 + (text.last() - 0x30) as nat
    }
}

/// The text without a leading plus sign.
pub open spec fn unsigned_part(text: Seq<u8>) -> Seq<u8> {
    if text.len() > 0 && text[0] == 0x2b {
        text.skip(1)
    } else {
        text
    }
}

/// The natural number that `text` stands for: one or more decimal digits
/// after an optional plus sign, and nothing else.
pub open spec fn parsed_number(text: Seq<u8>) -> Option<nat> {
    let body = unsigned_part(text);
    if body.len() > 0 && all_digits(body) {
        Some(number_of(body))
    } else {
        None
    }
}

/// The position of the first point in `text`, or its length where it holds
/// none.
pub open spec fn point_at(text: Seq<u8>) -> int
    decreases text.len(),
{
    if text.len() == 0 {
        0
    } else if text[0] == 0x2e {
        0
    } else {
        1 + point_at(text.drop_first())
    }
}

/// The number of thousandths that `text` stands for: a decimal number with
/// one or more digits before an optional point and, after a point, one to
/// three digits; a plus sign may lead.
pub open spec fn parsed_thousandths(text: Seq<u8>) -> Option<nat> {
    let body = unsigned_part(text);
    let split = point_at(body);
    let whole = body.take(split);
    let part = body.skip(split + 1);
    if !(whole.len() > 0 && all_digits(whole)) {
        None
    } else if split == body.len() {
        Some(number_of(whole) * 1000)
    } else if part.len() == 1 && all_digits(part) {
        Some(number_of(whole) * 1000 + number_of(part) * 100)
    } else if part.len() == 2 && all_digits(part) {
        Some(number_of(whole) * 1000 + number_of(part) * 10)
    } else if part.len() == 3 && all_digits(part) {
        Some(number_of(whole) * 1000 + number_of(part))
    } else {
        None
    }
}

/// A longer sequence of digits stands for a number that is no smaller.
proof fn lemma_number_grows(text: Seq<u8>, k: int)
    requires
        0 <= k <= text.len(),
        all_digits(text),
    ensures
        number_of(text.take(k)) <= number_of(text),
    decreases text.len() - k,
{
    if k < text.len() {
        lemma_number_grows(text, k + 1);
        assert(text.take(k + 1).drop_last() =~= text.take(k));
        assert(is_digit(text[k]));
    } else {
        assert(text.take(k) =~= text);
    }
}

/// The number that the digits `text` stand for, where they are digits, there
/// is one at least, and the number is `max` at most.
fn digits_value(text: &[u8], max: u64) -> (r: Option<u64>)
    ensures
        r matches Some(v) ==> text.len() > 0 && all_digits(text@) && v == number_of(text@) && v <= max,
        r is None ==> !(text.len() > 0 && all_digits(text@) && number_of(text@) <= max),
{
    if text.len() == 0 {
        return None;
    }
    let mut value: u64 = 0;
    let mut i: usize = 0;
    proof {
        assert(text@.take(0) =~= Seq::<u8>::empty());
    }
    while i < text.len()
        invariant
            i <= text.len(),
            all_digits(text@.take(i as int)),
            value == number_of(text@.take(i as int)),
            value <= max,
        decreases text.len() - i,
    {
        let b = text[i];
        proof {
            assert(text@.take(i + 1).drop_last() =~= text@.take(i as int));
            assert(text@.take(i + 1).last() == b);
        }
        if b < 0x30 || b > 0x39 {
            proof {
                if all_digits(text@) {
                    assert(is_digit(text@[i as int]));
                }
            }
            return None;
        }
        let d: u64 = (b - 0x30) as u64;
        if d > max || value > (max - d) / 10 {
            proof {
                if all_digits(text@) {
                    lemma_number_grows(text@, i + 1);
                }
            }
            return None;
        }
        value = value * 10 + d;
        proof {
            assert forall|k: int| 0 <= k < i + 1 implies is_digit(#[trigger] text@.take(i + 1)[k]) by {
                if k < i {
                    assert(is_digit(text@.take(i as int)[k]));
                }
            }
        }
        i += 1;
    }
    proof {
        assert(text@.take(i as int) =~= text@);
    }
    Some(value)
}

/// The text without a leading plus sign.
fn without_plus(text: &[u8]) -> (body: &[u8])
    ensures
        body@ == unsigned_part(text@),
{
    let start: usize = if text.len() > 0 && text[0] == 0x2b {
        1
    } else {
        0
    };
    let body = vstd::slice::slice_subrange(text, start, text.len());
    proof {
        assert(body@ =~= unsigned_part(text@));
    }
    body
}

/// The natural number that `text` stands for, where it stands for one that is
/// `max` at most.
pub fn parse_number(text: &str, max: u64) -> (r: Option<u64>)
    ensures
        r == match parsed_number(encode_utf8(text@)) {
            Some(v) => if v <= max {
                Some(v as u64)
            } else {
                None
            },
            None => None,
        },
{
    digits_value(without_plus(text.as_bytes()), max)
}

/// The number of thousandths that `text` stands for, where it stands for one
/// that a `u32` holds.
pub fn parse_thousandths(text: &str) -> (r: Option<u32>)
    ensures
        r == match parsed_thousandths(encode_utf8(text@)) {
            Some(v) => if v <= u32::MAX {
                Some(v as u32)
            } else {
                None
            },
            None => None,
        },
{
    let body = without_plus(text.as_bytes());
    let mut split: usize = 0;
    proof {
        assert(body@.skip(0) =~= body@);
    }
    while split < body.len() && body[split] != 0x2e
        invariant
            split <= body.len(),
            point_at(body@) == split + point_at(body@.skip(split as int)),
        decreases body.len() - split,
    {
        proof {
            assert(body@.skip(split as int).drop_first() =~= body@.skip(split + 1));
        }
        split += 1;
    }
    proof {
        if split < body.len() {
            assert(body@.skip(split as int)[0] == body@[split as int]);
        }
        assert(point_at(body@) == split);
    }
    let whole_text = vstd::slice::slice_subrange(body, 0, split);
    proof {
        assert(whole_text@ =~= body@.take(split as int));
    }
    let whole = match digits_value(whole_text, 4_294_967) {
        Some(w) => w,
        None => {
            return None;
        },
    };
    if split == body.len() {
        return Some((whole * 1000) as u32);
    }
    let part_text = vstd::slice::slice_subrange(body, split + 1, body.len());
    proof {
        assert(part_text@ =~= body@.skip(split + 1));
    }
    if part_text.len() == 0 || part_text.len() > 3 {
        return None;
    }
    let part = match digits_value(part_text, 999) {
        Some(p) => p,
        None => {
            proof {
                if all_digits(part_text@) {
                    lemma_three_digits(part_text@);
                }
            }
            return None;
        },
    };
    let scaled: u64 = if part_text.len() == 1 {
        part * 100
    } else if part_text.len() == 2 {
        part * 10
    } else {
        part
    };
    let total: u64 = whole * 1000 + scaled;
    if total > 0xffff_ffff {
        None
    } else {
        Some(total as u32)
    }
}

/// Up to three digits stand for a number below a thousand.
proof fn lemma_three_digits(text: Seq<u8>)
    requires
        text.len() <= 3,
        all_digits(text),
    ensures
        number_of(text) <= 999,
    decreases text.len(),
{
    if text.len() > 0 {
        assert forall|i: int| 0 <= i < text.drop_last().len() implies is_digit(#[trigger] text.drop_last()[i]) by {
            assert(is_digit(text[i]));
        }
        lemma_three_digits(text.drop_last());
        assert(is_digit(text[text.len() - 1]));
        if text.len() == 1 {
            assert(number_of(text.drop_last()) == 0);
        } else if text.len() == 2 {
            lemma_one_digit(text.drop_last());
        } else {
            lemma_two_digits(text.drop_last());
        }
    }
}

/// One digit stands for a number below ten.
proof fn lemma_one_digit(text: Seq<u8>)
    requires
        text.len() == 1,
        all_digits(text),
    ensures
        number_of(text) <= 9,
{
    assert(is_digit(text[0]));
    assert(number_of(text.drop_last()) == 0);
}

/// Two digits stand for a number below a hundred.
proof fn lemma_two_digits(text: Seq<u8>)
    requires
        text.len() == 2,
        all_digits(text),
    ensures
        number_of(text) <= 99,
{
    assert forall|i: int| 0 <= i < text.drop_last().len() implies is_digit(#[trigger] text.drop_last()[i]) by {
        assert(is_digit(text[i]));
    }
    lemma_one_digit(text.drop_last());
    assert(is_digit(text[1]));
}

/// The values of the variables that the settings are read from; `None` where
/// a variable is not set.
#[derive(Debug)]
pub struct Environment {
    pub host: Option<String>,
    pub port: Option<String>,
    pub agg_window_sec: Option<String>,
    pub output_dir: Option<String>,
    pub seal_endpoint: Option<String>,
    pub max_records_per_window: Option<String>,
    pub outlier_threshold_multiplier: Option<String>,
    pub enable_signature_verification: Option<String>,
}

/// The variable whose value is no valid setting.
#[derive(Debug, Clone, Copy, PartialEq, Eq, Structural)]
pub enum ConfigError {
    Port,
    AggWindowSec,
    MaxRecordsPerWindow,
    OutlierThresholdMultiplier,
    EnableSignatureVerification,
}

/// The value of a variable, or `default` where it is not set.
pub open spec fn setting(value: Option<String>, default: Seq<char>) -> Seq<char> {
    match value {
        Some(v) => v@,
        None => default,
    }
}

/// The number that a variable holds, where it holds one from `min` to `max`.
pub open spec fn number_setting(value: Option<String>, default: Seq<char>, min: nat, max: nat) -> Option<nat> {
    match parsed_number(encode_utf8(setting(value, default))) {
        Some(v) => if min <= v <= max {
            Some(v)
        } else {
            None
        },
        None => None,
    }
}

/// The port that the variables give: 8080 where none is set.
pub open spec fn port_of(env: Environment) -> Option<nat> {
    number_setting(env.port, "8080"@, 0, u16::MAX as nat)
}

/// The window length that the variables give, in seconds: an hour where none
/// is set.
pub open spec fn window_of(env: Environment) -> Option<nat> {
    number_setting(env.agg_window_sec, "3600"@, 1, MAX_WINDOW_SEC as nat)
}

/// The capacity that the variables give: a thousand readings where none is
/// set.
pub open spec fn capacity_of(env: Environment) -> Option<nat> {
    number_setting(env.max_records_per_window, "1000"@, 1, usize::MAX as nat)
}

/// The multiplier that the variables give, in thousandths: three where none
/// is set.
pub open spec fn multiplier_of(env: Environment) -> Option<nat> {
    match parsed_thousandths(encode_utf8(setting(env.outlier_threshold_multiplier, "3.0"@))) {
        Some(v) => if 1 <= v <= u32::MAX {
            Some(v)
        } else {
            None
        },
        None => None,
    }
}

/// Whether the variables ask for signatures to be verified: they do where
/// nothing is set.
pub open spec fn verification_of(env: Environment) -> Option<bool> {
    let text = setting(env.enable_signature_verification, "true"@);
    if text == "true"@ {
        Some(true)
    } else if text == "false"@ {
        Some(false)
    } else {
        None
    }
}

/// The first variable, in the order of the settings, whose value is no valid
/// setting.
pub open spec fn first_invalid(env: Environment) -> Option<ConfigError> {
    if port_of(env) is None {
        Some(ConfigError::Port)
    } else if window_of(env) is None {
        Some(ConfigError::AggWindowSec)
    } else if capacity_of(env) is None {
        Some(ConfigError::MaxRecordsPerWindow)
    } else if multiplier_of(env) is None {
        Some(ConfigError::OutlierThresholdMultiplier)
    } else if verification_of(env) is None {
        Some(ConfigError::EnableSignatureVerification)
    } else {
        None
    }
}

/// The value of a variable, or `default` where it is not set.
fn value_or(value: &Option<String>, default: &str) -> (text: String)
    ensures
        text@ == setting(*value, default@),
{
    match value {
        Some(v) => v.clone(),
        None => default.to_owned(),
    }
}

/// The number that a variable holds, where it holds one from `min` to `max`.
fn number_or(value: &Option<String>, default: &str, min: u64, max: u64) -> (r: Option<u64>)
    ensures
        r matches Some(v) ==> number_setting(*value, default@, min as nat, max as nat) == Some(v as nat),
        r is None ==> number_setting(*value, default@, min as nat, max as nat) is None,
{
    let text = value_or(value, default);
    match parse_number(text.as_str(), max) {
        Some(v) => if v >= min {
            Some(v)
        } else {
            None
        },
        None => None,
    }
}

impl Config {
    /// The settings that the variables give, each with its default where the
    /// variable is not set; or the first variable whose value is no valid
    /// setting.
    pub fn from_env(env: Environment) -> (r: Result<Config, ConfigError>)
        ensures
            match r {
                Ok(c) => {
                    &&& first_invalid(env) is None
                    &&& c.valid()
                    &&& c.host@ == setting(env.host, "0.0.0.0"@)
                    &&& Some(c.port as nat) == port_of(env)
                    &&& Some(c.agg_window_sec as nat) == window_of(env)
                    &&& c.output_dir@ == setting(env.output_dir, "./out"@)
                    &&& c.seal_endpoint == env.seal_endpoint
                    &&& Some(c.max_records_per_window as nat) == capacity_of(env)
                    &&& Some(c.outlier_threshold_multiplier as nat) == multiplier_of(env)
                    &&& Some(c.enable_signature_verification) == verification_of(env)
                },
                Err(e) => first_invalid(env) == Some(e),
            },
    {
        let port = match number_or(&env.port, "8080", 0, 0xffff) {
            Some(v) => v as u16,
            None => {
                return Err(ConfigError::Port);
            },
        };
        let agg_window_sec = match number_or(&env.agg_window_sec, "3600", 1, MAX_WINDOW_SEC) {
            Some(v) => v,
            None => {
                return Err(ConfigError::AggWindowSec);
            },
        };
        let max_records_per_window = match number_or(&env.max_records_per_window, "1000", 1, usize::MAX as u64) {
            Some(v) => v as usize,
            None => {
                return Err(ConfigError::MaxRecordsPerWindow);
            },
        };
        let multiplier_text = value_or(&env.outlier_threshold_multiplier, "3.0");
        let outlier_threshold_multiplier = match parse_thousandths(multiplier_text.as_str()) {
            Some(v) => v,
            None => {
                return Err(ConfigError::OutlierThresholdMultiplier);
            },
        };
        if outlier_threshold_multiplier == 0 {
            return Err(ConfigError::OutlierThresholdMultiplier);
        }
        let flag_text = value_or(&env.enable_signature_verification, "true");
        let enable_signature_verification = if str_eq(flag_text.as_str(), "true") {
            true
        } else if str_eq(flag_text.as_str(), "false") {
            false
        } else {
            return Err(ConfigError::EnableSignatureVerification);
        };
        Ok(
            Config {
                host: value_or(&env.host, "0.0.0.0"),
                port,
                agg_window_sec,
                output_dir: value_or(&env.output_dir, "./out"),
                seal_endpoint: env.seal_endpoint,
                max_records_per_window,
                outlier_threshold_multiplier,
                enable_signature_verification,
            },
        )
    }
}

impl Clone for Config {
    fn clone(&self) -> (c: Self)
        ensures
            c.limits() == self.limits(),
            c.valid() == self.valid(),
            c.host@ == self.host@,
            c.port == self.port,
            c.output_dir@ == self.output_dir@,
            c.seal_endpoint == self.seal_endpoint,
    {
        Config {
            host: self.host.clone(),
            port: self.port,
            agg_window_sec: self.agg_window_sec,
            output_dir: self.output_dir.clone(),
            seal_endpoint: match &self.seal_endpoint {
                Some(s) => Some(s.clone()),
                None => None,
            },
            max_records_per_window: self.max_records_per_window,
            outlier_threshold_multiplier: self.outlier_threshold_multiplier,
            enable_signature_verification: self.enable_signature_verification,
        }
    }
}

} // verus!
