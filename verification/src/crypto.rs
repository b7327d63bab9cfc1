//! SHA-256 and Ed25519, called from `sha2` and `ed25519-dalek`, and signature checking over
//! base64-encoded keys and signatures.
use vstd::prelude::*;
use vstd::utf8::encode_utf8;
use ed25519_dalek::{Signature, Signer, SigningKey, Verifier, VerifyingKey};
use sha2::{Digest, Sha256};
use crate::base64::{base64_decode, decode_spec};
use crate::hex::{hex_encode, hex_lower, is_lower_hex_digit, lemma_hex_lower_digits};

verus! {

/// The SHA-256 digest of `data`.
pub uninterp spec fn sha256_digest(data: Seq<u8>) -> Seq<u8>;

/// Whether `signature` is a valid Ed25519 signature of `message` under the public key whose
/// compressed encoding is `public_key`: the key decompresses to a curve point and the
/// signature passes `ed25519-dalek`'s verification equation.
pub uninterp spec fn ed25519_verifies(public_key: Seq<u8>, message: Seq<u8>, signature: Seq<u8>) -> bool;

/// Whether the 32 bytes `public_key` decompress to a point of the curve, so that
/// `ed25519_dalek::VerifyingKey::from_bytes` accepts them.
pub uninterp spec fn ed25519_point_valid(public_key: Seq<u8>) -> bool;

/// The compressed public key of the Ed25519 signing key with secret `seed`.
pub uninterp spec fn ed25519_public_key(seed: Seq<u8>) -> Seq<u8>;

/// The (deterministic) Ed25519 signature of `message` by the signing key with secret `seed`.
pub uninterp spec fn ed25519_signature(seed: Seq<u8>, message: Seq<u8>) -> Seq<u8>;

/// Calls `sha2::Sha256::digest`. Trusted to give the 32-byte digest that the name
/// `sha256_digest` stands for; nothing else about SHA-256 is stated.
#[verifier::external_body]
fn sha256(data: &[u8]) -> (r: Vec<u8>)
    ensures
        r@ == sha256_digest(data@),
        r@.len() == 32,
{
    Sha256::digest(data).to_vec()
}

/// Calls `ed25519_dalek::VerifyingKey::from_bytes` on the 32 key bytes and, when the key
/// decompresses, `Verifier::verify` with `Signature::from_bytes` of the 64 signature bytes.
/// Trusted to return exactly the outcome that `ed25519_verifies` names, and to return
/// `false` whenever `from_bytes` rejects the key, that is when the key is not a curve point
/// (`ed25519_point_valid` names whether `from_bytes` accepts it).
#[verifier::external_body]
fn ed25519_verify(public_key: &[u8], message: &[u8], signature: &[u8]) -> (r: bool)
    requires
        public_key@.len() == 32,
        signature@.len() == 64,
    ensures
        r == ed25519_verifies(public_key@, message@, signature@),
        !ed25519_point_valid(public_key@) ==> !r,
{
    let pk: [u8; 32] = public_key.try_into().unwrap();
    let sig: [u8; 64] = signature.try_into().unwrap();
    match VerifyingKey::from_bytes(&pk) {
        Ok(vk) => vk.verify(message, &Signature::from_bytes(&sig)).is_ok(),
        Err(_) => false,
    }
}

/// Calls `ed25519_dalek::SigningKey::from_bytes(seed).verifying_key().to_bytes()`.
/// Trusted to give the 32-byte compressed key that `ed25519_public_key` names; being the
/// compression of a curve point, it decompresses again.
#[verifier::external_body]
fn ed25519_public(seed: &[u8; 32]) -> (r: Vec<u8>)
    ensures
        r@ == ed25519_public_key(seed@),
        r@.len() == 32,
        ed25519_point_valid(r@),
{
    SigningKey::from_bytes(seed).verifying_key().to_bytes().to_vec()
}

/// Calls `Signer::sign` on `ed25519_dalek::SigningKey::from_bytes(seed)` and takes the 64
/// signature bytes. Trusted to give what `ed25519_signature` names, and, as the crate's
/// signing and verification equations guarantee, a signature that verifies under the key's
/// own public key.
#[verifier::external_body]
fn ed25519_sign(seed: &[u8; 32], message: &[u8]) -> (r: Vec<u8>)
    ensures
        r@ == ed25519_signature(seed@, message@),
        r@.len() == 64,
        ed25519_verifies(ed25519_public_key(seed@), message@, r@),
{
    SigningKey::from_bytes(seed).sign(message).to_bytes().to_vec()
}

/// Whether `sig_b64` is an Ed25519 signature of the UTF-8 bytes of `msg` under `pub_b64`:
/// both must decode as base64, to 32 and 64 bytes.
pub open spec fn signature_valid(msg: Seq<char>, pub_b64: Seq<char>, sig_b64: Seq<char>) -> bool {
    match (decode_spec(encode_utf8(pub_b64)), decode_spec(encode_utf8(sig_b64))) {
        (Some(pk), Some(sig)) => pk.len() == 32 && sig.len() == 64 && ed25519_verifies(
            pk,
            encode_utf8(msg),
            sig,
        ),
        _ => false,
    }
}

/// Checks an Ed25519 signature given as base64 against a base64 public key. A key that
/// decodes to 32 bytes which are not a curve point is rejected.
pub fn verify_sig(msg: &str, pub_b64: &str, sig_b64: &str) -> (r: bool)
    ensures
        r == signature_valid(msg@, pub_b64@, sig_b64@),
        decode_spec(encode_utf8(pub_b64@)) matches Some(pk) && pk.len() == 32
            && !ed25519_point_valid(pk) ==> !r,
{
    let public = match base64_decode(pub_b64) {
        Some(v) => {
            if v.len() == 32 {
                v
            } else {
                return false;
            }
        },
        None => return false,
    };
    let signature = match base64_decode(sig_b64) {
        Some(v) => {
            if v.len() == 64 {
                v
            } else {
                return false;
            }
        },
        None => return false,
    };
    ed25519_verify(public.as_slice(), msg.as_bytes(), signature.as_slice())
}

/// The public key of a seed, as base64 text.
pub open spec fn public_key_text(seed: Seq<u8>) -> Seq<char> {
    crate::base64::encode_spec(ed25519_public_key(seed))
}

/// The signature of `msg`'s UTF-8 bytes by the key with secret `seed`, as base64 text.
pub open spec fn signature_text(seed: Seq<u8>, msg: Seq<char>) -> Seq<char> {
    crate::base64::encode_spec(ed25519_signature(seed, encode_utf8(msg)))
}

/// The base64 public key of the signing key with secret `seed`.
pub fn public_key_b64(seed: &[u8; 32]) -> (r: String)
    ensures
        r@ == public_key_text(seed@),
        ed25519_public_key(seed@).len() == 32,
{
    let pk = ed25519_public(seed);
    crate::base64::b64(pk.as_slice())
}

/// The base64 signature of `msg`'s UTF-8 bytes by the signing key with secret `seed`.
pub fn sign_b64(seed: &[u8; 32], msg: &str) -> (r: String)
    ensures
        r@ == signature_text(seed@, msg@),
        ed25519_signature(seed@, encode_utf8(msg@)).len() == 64,
        ed25519_verifies(
            ed25519_public_key(seed@),
            encode_utf8(msg@),
            ed25519_signature(seed@, encode_utf8(msg@)),
        ),
{
    let sig = ed25519_sign(seed, msg.as_bytes());
    crate::base64::b64(sig.as_slice())
}

/// A signature made with a seed verifies under that seed's public key.
pub(crate) proof fn lemma_sign_then_verify(seed: Seq<u8>, msg: Seq<char>)
    requires
        ed25519_public_key(seed).len() == 32,
        ed25519_signature(seed, encode_utf8(msg)).len() == 64,
        ed25519_verifies(ed25519_public_key(seed), encode_utf8(msg), ed25519_signature(seed, encode_utf8(msg))),
    ensures
        signature_valid(msg, public_key_text(seed), signature_text(seed, msg)),
{
    crate::base64::lemma_base64_round_trip(ed25519_public_key(seed));
    crate::base64::lemma_base64_round_trip(ed25519_signature(seed, encode_utf8(msg)));
}

/// The lower-case hexadecimal SHA-256 digest of the UTF-8 bytes of `value`.
pub open spec fn sha256_hex_text(value: Seq<char>) -> Seq<char> {
    hex_lower(sha256_digest(encode_utf8(value)))
}

/// Hashes the UTF-8 bytes of `value` with SHA-256 and writes the digest in lower-case hex.
pub fn sha256_hex(value: &str) -> (r: String)
    ensures
        r@ == sha256_hex_text(value@),
        sha256_digest(encode_utf8(value@)).len() == 32,
        r@.len() == 64,
        forall|k: int| 0 <= k < r@.len() ==> is_lower_hex_digit(#[trigger] r@[k]),
{
    let digest = sha256(value.as_bytes());
    proof {
        lemma_hex_lower_digits(digest@);
    }
    hex_encode(digest.as_slice())
}

} // verus!
