//! Recoverable ECDSA over secp256k1, as the `secp256k1` crate computes it.

use vstd::prelude::*;
use secp256k1::ecdsa::{RecoverableSignature, RecoveryId, Signature};
use secp256k1::{Message, PublicKey, Secp256k1};

verus! {

/// The public key, in its uncompressed form of 65 bytes, that
/// `Secp256k1::recover_ecdsa` recovers for the 32-byte `digest` from the
/// compact signature `rs` (`r` then `s`, 32 bytes each) and the recovery id;
/// `None` where the digest, the signature or the id is not well formed or no
/// key is recovered.
pub uninterp spec fn ecdsa_recover(digest: Seq<u8>, rs: Seq<u8>, recovery_id: u8) -> Option<Seq<u8>>;

/// Whether `Secp256k1::verify_ecdsa` accepts the compact signature `rs` for
/// the 32-byte `digest` under the public key `key`.
pub uninterp spec fn ecdsa_verifies(digest: Seq<u8>, rs: Seq<u8>, key: Seq<u8>) -> bool;

/// Calls `Secp256k1::recover_ecdsa`, in a verification context, on the
/// message made of `digest` by `Message::from_slice` and the recoverable
/// signature made of `rs` and `recovery_id` by `RecoveryId::from_i32` and
/// `RecoverableSignature::from_compact`, and serialises the key that comes
/// back with `PublicKey::serialize_uncompressed`. A failure of any of these
/// gives `None`. Trusted: the outcome is a function of the three arguments
/// alone.
#[verifier::external_body]
pub(crate) fn recover_key(digest: &[u8], rs: &[u8], recovery_id: u8) -> (key: Option<Vec<u8>>)
    ensures
        key matches Some(k) ==> ecdsa_recover(digest@, rs@, recovery_id) == Some(k@),
        key is None ==> ecdsa_recover(digest@, rs@, recovery_id) is None,
{
    let message = Message::from_slice(digest).ok()?;
    let id = RecoveryId::from_i32(i32::from(recovery_id)).ok()?;
    let signature = RecoverableSignature::from_compact(rs, id).ok()?;
    let key = Secp256k1::verification_only().recover_ecdsa(&message, &signature).ok()?;
    Some(key.serialize_uncompressed().to_vec())
}

/// Calls `Secp256k1::verify_ecdsa`, in a verification context, on the
/// message made of `digest` by `Message::from_slice`, the signature made of
/// `rs` by `Signature::from_compact` and the public key made of `key` by
/// `PublicKey::from_slice`; where one of them cannot be made, nothing is
/// accepted. Trusted: the outcome is a function of the three arguments alone.
#[verifier::external_body]
pub(crate) fn key_verifies(digest: &[u8], rs: &[u8], key: &[u8]) -> (accepted: bool)
    ensures
        accepted == ecdsa_verifies(digest@, rs@, key@),
{
    let (Ok(message), Ok(signature), Ok(key)) = (
        Message::from_slice(digest),
        Signature::from_compact(rs),
        PublicKey::from_slice(key),
    ) else {
        return false;
    };
    Secp256k1::verification_only().verify_ecdsa(&message, &signature, &key).is_ok()
}

} // verus!
