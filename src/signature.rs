//! The ECDSA capability over secp256k1: parsing keys, signatures and digests,
//! and checking a signature.
use vstd::prelude::*;
use secp256k1::ecdsa::Signature;
use secp256k1::{Message, PublicKey};

verus! {

#[verifier::external_type_specification]
#[verifier::external_body]
pub struct ExPublicKey(PublicKey);

/// Whether bytes are a serialized secp256k1 public key.
pub uninterp spec fn public_key_parses(b: Seq<u8>) -> bool;

/// Whether bytes are a 64-byte compact ECDSA signature with both scalars in range.
pub uninterp spec fn compact_signature_parses(b: Seq<u8>) -> bool;

/// Whether `sig`, read as a compact signature, signs the 32-byte `digest`
/// under `key`, read as a serialized public key.
pub uninterp spec fn ecdsa_accepts(sig: Seq<u8>, digest: Seq<u8>, key: Seq<u8>) -> bool;

/// Relies on secp256k1's ecdsa::Signature::verify (global context) for the
/// check, with ecdsa::Signature::from_compact, Message::from_digest_slice and
/// PublicKey::from_slice turning the bytes into its arguments. The answer
/// depends on the three byte strings alone, and is false when any of them
/// does not parse (from_compact refuses any length but 64, from_digest_slice
/// any length but 32).
#[verifier::external_body]
pub(crate) fn ecdsa_verify(sig: &[u8], digest: &[u8], key: &[u8]) -> (r: bool)
    ensures
        r == ecdsa_accepts(sig@, digest@, key@),
        r ==> compact_signature_parses(sig@) && sig@.len() == 64,
        r ==> public_key_parses(key@),
        r ==> digest@.len() == 32,
{
    match (Signature::from_compact(sig), Message::from_digest_slice(digest), PublicKey::from_slice(key)) {
        (Ok(s), Ok(m), Ok(k)) => s.verify(&m, &k).is_ok(),
        _ => false,
    }
}

/// Relies on secp256k1::PublicKey::serialize: the 33-byte compressed form.
#[verifier::external_body]
pub(crate) fn serialize_public_key(key: &PublicKey) -> (r: Vec<u8>)
    ensures
        r@.len() == 33,
{
    key.serialize().to_vec()
}

} // verus!
