//! Window aggregation engine for signed energy-meter readings.
//!
//! Meters submit records authenticated with a recoverable ECDSA signature.
//! The engine admits them into a single open time window, filters statistical
//! outliers when the window closes, and emits a proof that commits to the
//! surviving records through a Keccak-256 Merkle root.
//!
//! Energy is held as a whole number of millionths of a kilowatt-hour and
//! instants as milliseconds since the Unix epoch, so that every rule of the
//! engine is stated and proved over integers.
//!
//! An energy with more than six decimals cannot be held. Whoever hands a
//! reading to the engine rounds its energy to millionths, and the canonical
//! encoding, and with it the digest that the signature has to match, is that
//! of the rounded value: a meter that signs more than six decimals signs
//! something else than what is verified. The multiplier of the outlier test
//! is held in thousandths in the same way, and is read from decimal text with
//! at most three decimals and no exponent.
//!
//! The engine writes nothing itself. A window that closes hands out its
//! proof; the caller writes it and tells the engine whether it was written,
//! and only then is the proof counted and a submission that closed the window
//! admitted.

pub mod aggregator;
pub mod clock;
pub mod config;
pub mod crypto;
pub mod digest;
pub mod ecdsa;
pub mod encoding;
pub mod handlers;
pub mod hexcode;
pub mod idset;
pub mod merkle;
pub mod models;
pub mod numtext;
pub mod order;
pub mod outlier;
pub mod seal;
pub mod validation;
pub mod wide;
