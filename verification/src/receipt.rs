//! Gateway-signed receipts and their verification against a registry of gateway keys.
use vstd::prelude::*;
use crate::canonical::{canonical_receipt, receipt_text};
use crate::collections::StringMap;
use crate::crypto::{lemma_sign_then_verify, public_key_b64, public_key_text, sign_b64,
    signature_text, signature_valid, verify_sig};
use crate::model::{ReceiptClaims, SignedReceipt};
use crate::text::owned;

verus! {

/// A receipt is accepted against a gateway registry when the registry pins its gateway id to
/// its gateway key and the gateway signature over its canonical text holds.
pub open spec fn receipt_accepted(r: SignedReceipt, trusted: Map<Seq<char>, Seq<char>>) -> bool {
    &&& trusted.contains_key(r.gateway_id@)
    &&& trusted[r.gateway_id@] == r.gateway_pub@
    &&& signature_valid(receipt_text(r.claims, r.gateway_id@, r.gateway_pub@), r.gateway_pub@, r.sig@)
}

/// Signs receipt claims with the gateway key whose secret is `key`. The result carries the
/// gateway's base64 public key and its signature over the canonical receipt text, so it is
/// accepted by every registry that pins `gateway_id` to that key.
pub fn sign_receipt(claims: ReceiptClaims, gateway_id: &str, key: &[u8; 32]) -> (r: SignedReceipt)
    ensures
        r.claims == claims,
        r.gateway_id@ == gateway_id@,
        r.gateway_pub@ == public_key_text(key@),
        r.sig@ == signature_text(key@, receipt_text(claims, gateway_id@, r.gateway_pub@)),
        forall|m: Map<Seq<char>, Seq<char>>|
            m.contains_key(gateway_id@) && m[gateway_id@] == r.gateway_pub@
                ==> #[trigger] receipt_accepted(r, m),
{
    let gateway_pub = public_key_b64(key);
    let message = canonical_receipt(&claims, gateway_id, gateway_pub.as_str());
    let sig = sign_b64(key, message.as_str());
    proof {
        lemma_sign_then_verify(key@, message@);
    }
    SignedReceipt { claims, gateway_id: owned(gateway_id), gateway_pub, sig }
}

/// Verifies a signed receipt against a verifier-controlled registry of gateway keys.
pub fn verify_signed_receipt(receipt: &SignedReceipt, trusted_gateways: &StringMap<String>) -> (r: bool)
    ensures
        r == receipt_accepted(*receipt, trusted_gateways@),
{
    let pinned = match trusted_gateways.get(receipt.gateway_id.as_str()) {
        Some(k) => *k == receipt.gateway_pub,
        None => false,
    };
    if !pinned {
        return false;
    }
    let message = canonical_receipt(&receipt.claims, receipt.gateway_id.as_str(), receipt.gateway_pub.as_str());
    verify_sig(message.as_str(), receipt.gateway_pub.as_str(), receipt.sig.as_str())
}

} // verus!
