//! Detached sr25519 signatures over byte strings.

use vstd::prelude::*;

verus! {

/// Length in bytes of an sr25519 signature.
pub const SIGNATURE_LENGTH: usize = 64;

/// Length in bytes of an sr25519 public key.
pub const PUBLIC_KEY_LENGTH: usize = 32;

/// The answer of `sp_core::sr25519::Pair::verify` for a 64-byte signature, a
/// message and a 32-byte public key.
pub uninterp spec fn sr25519_accepts(signature: Seq<u8>, message: Seq<u8>, public_key: Seq<u8>) -> bool;

/// A signature verifies when it and the key have the right lengths and the
/// scheme accepts it. Anything malformed does not verify.
pub open spec fn signature_verifies(signature: Seq<u8>, message: Seq<u8>, public_key: Seq<u8>) -> bool {
    &&& signature.len() == SIGNATURE_LENGTH
    &&& public_key.len() == PUBLIC_KEY_LENGTH
    &&& sr25519_accepts(signature, message, public_key)
}

/// Calls `sp_core::sr25519::Pair::verify` on the raw signature and key. That
/// function returns `false` when either does not parse and otherwise the
/// outcome of the schnorrkel check under the signing context `substrate`; it
/// depends on its three arguments alone, and the contract names its answer.
#[verifier::external_body]
fn sr25519_verify(signature: &[u8], message: &[u8], public_key: &[u8]) -> (ok: bool)
    requires
        signature@.len() == SIGNATURE_LENGTH,
        public_key@.len() == PUBLIC_KEY_LENGTH,
    ensures
        ok == sr25519_accepts(signature@, message@, public_key@),
{
    let mut sig: [u8; 64] = [0u8; 64];
    sig.copy_from_slice(signature);
    let mut key: [u8; 32] = [0u8; 32];
    key.copy_from_slice(public_key);
    let sig = sp_core::sr25519::Signature::from_raw(sig);
    let key = sp_core::sr25519::Public::from_raw(key);
    <sp_core::sr25519::Pair as sp_core::Pair>::verify(&sig, message, &key)
}

/// Length in bytes of the seed that a key pair is expanded from.
pub const SEED_LENGTH: usize = 32;

/// Length in bytes of a secret key that is given in full.
pub const SECRET_KEY_LENGTH: usize = 64;

/// Calls `sp_core::sr25519::Pair::from_seed_slice` and then `sign`. Any 32
/// bytes are a seed and give a pair; 64 bytes give one where they are a
/// well-formed secret key; every other length is refused. Signing draws
/// fresh randomness, so of the signature itself only its length is promised.
#[verifier::external_body]
pub(crate) fn sr25519_sign(seed: &[u8], message: &[u8]) -> (signature: Option<Vec<u8>>)
    ensures
        signature matches Some(s) ==> s@.len() == SIGNATURE_LENGTH,
        seed@.len() == SEED_LENGTH ==> signature is Some,
        seed@.len() != SEED_LENGTH && seed@.len() != SECRET_KEY_LENGTH ==> signature is None,
{
    match <sp_core::sr25519::Pair as sp_core::Pair>::from_seed_slice(seed) {
        Ok(pair) => Some(<sp_core::sr25519::Pair as sp_core::Pair>::sign(&pair, message).0.to_vec()),
        Err(_) => None,
    }
}

/// Verifies a detached signature over `msg` under `pub_key`. Fails closed: a
/// signature or key of the wrong length is simply not valid.
pub fn is_signed(pub_key: &[u8], msg: &[u8], sig: &[u8]) -> (ok: bool)
    ensures
        ok == signature_verifies(sig@, msg@, pub_key@),
{
    if sig.len() != SIGNATURE_LENGTH || pub_key.len() != PUBLIC_KEY_LENGTH {
        return false;
    }
    sr25519_verify(sig, msg, pub_key)
}

} // verus!
