//! Signing grants and invocations with an Ed25519 seed, and reading seeds from hex.
use vstd::prelude::*;
use crate::canonical::{authority_text, canonical_authority, canonical_invocation, invocation_text};
use crate::crypto::{lemma_sign_then_verify, public_key_b64, public_key_text, sign_b64,
    signature_text, signature_valid};
use crate::hex::{hex_decode, hex_text_bytes};
use crate::model::{AuthorityObject, Invocation};

verus! {

/// Why a hexadecimal seed was refused.
#[derive(Debug, Clone, Copy, PartialEq, Eq, Structural)]
pub enum SeedError {
    /// The text is not hexadecimal.
    NotHex,
    /// The text decodes to this many bytes instead of 32.
    WrongLength(usize),
}

/// Sets the grant's issuer key to the public key of `seed` and signs the grant with it; the
/// signature then holds for the grant.
pub fn sign_authority(a: &mut AuthorityObject, seed: &[u8; 32])
    ensures
        final(a).issuer_pub@ == public_key_text(seed@),
        final(a).sig@ == signature_text(seed@, authority_text(*final(a))),
        signature_valid(authority_text(*final(a)), final(a).issuer_pub@, final(a).sig@),
        final(a).issuer == old(a).issuer,
        final(a).subject == old(a).subject,
        final(a).capability == old(a).capability,
        final(a).resource == old(a).resource,
        final(a).scope == old(a).scope,
        final(a).constraints == old(a).constraints,
        final(a).delegation == old(a).delegation,
        final(a).revocation == old(a).revocation,
        final(a).subject_pub == old(a).subject_pub,
{
    a.issuer_pub = public_key_b64(seed);
    let text = canonical_authority(a);
    a.sig = sign_b64(seed, text.as_str());
    proof {
        lemma_sign_then_verify(seed@, text@);
    }
}

/// Sets the invocation's subject key to the public key of `seed` and signs the invocation
/// with it; the signature then holds for the invocation.
pub fn sign_invocation(i: &mut Invocation, seed: &[u8; 32])
    ensures
        final(i).subject_pub@ == public_key_text(seed@),
        final(i).sig@ == signature_text(seed@, invocation_text(*final(i))),
        signature_valid(invocation_text(*final(i)), final(i).subject_pub@, final(i).sig@),
        final(i).authority_id == old(i).authority_id,
        final(i).invocation_id == old(i).invocation_id,
        final(i).subject == old(i).subject,
        final(i).capability == old(i).capability,
        final(i).resource == old(i).resource,
        final(i).amount_minor == old(i).amount_minor,
        final(i).currency == old(i).currency,
        final(i).audience == old(i).audience,
        final(i).nonce == old(i).nonce,
        final(i).created == old(i).created,
        final(i).human_confirmed == old(i).human_confirmed,
{
    i.subject_pub = public_key_b64(seed);
    let text = canonical_invocation(i);
    i.sig = sign_b64(seed, text.as_str());
    proof {
        lemma_sign_then_verify(seed@, text@);
    }
}

/// Reads a 32-byte seed written in hexadecimal (surrounding white space is ignored).
pub fn seed_from_hex(s: &str) -> (r: Result<Vec<u8>, SeedError>)
    ensures
        match hex_text_bytes(s@) {
            None => r == Err::<Vec<u8>, SeedError>(SeedError::NotHex),
            Some(b) => if b.len() == 32 {
                r matches Ok(v) && v@ == b
            } else {
                r == Err::<Vec<u8>, SeedError>(SeedError::WrongLength(b.len() as usize))
            },
        },
{
    match hex_decode(s) {
        None => Err(SeedError::NotHex),
        Some(bytes) => {
            if bytes.len() == 32 {
                Ok(bytes)
            } else {
                Err(SeedError::WrongLength(bytes.len()))
            }
        },
    }
}

/// Repeats `bytes` cyclically to fill a 32-byte seed.
pub fn expand_seed(bytes: &Vec<u8>) -> (r: Vec<u8>)
    requires
        bytes@.len() > 0,
    ensures
        r@.len() == 32,
        forall|k: int| 0 <= k < 32 ==> #[trigger] r@[k] == bytes@[k % bytes@.len() as int],
{
    let n = bytes.len();
    let mut out: Vec<u8> = Vec::new();
    let mut k: usize = 0;
    while k < 32
        invariant
            n == bytes@.len(),
            n > 0,
            k <= 32,
            out@.len() == k,
            forall|j: int| 0 <= j < k ==> #[trigger] out@[j] == bytes@[j % n as int],
        decreases 32 - k,
    {
        out.push(bytes[k % n]);
        k = k + 1;
    }
    out
}

} // verus!
