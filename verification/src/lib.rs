//! Echo Authority Protocol: a human-rooted authorization layer for autonomous systems.
//!
//! An agent may propose an action; executing it requires a bounded grant issued by a trusted
//! human key. This library decides invocations of grants deterministically, consumes them in
//! one state transition, checks that delegated grants only narrow, and signs and verifies
//! gateway receipts.

pub mod attenuation;
pub mod base64;
pub mod border;
pub mod canonical;
pub mod collections;
pub mod crypto;
pub mod hex;
pub mod model;
pub mod receipt;
pub mod resource;
pub mod signing;
pub mod text;
pub mod verdict;

pub use attenuation::check_attenuation;
pub use base64::{b64, base64_decode};
pub use border::{authorize_and_record, border_check, check_grant_use, check_signed_invocation,
    record_authorization,
    FORBIDDEN_CAPS};
pub use canonical::{authority_id, canonical_authority, canonical_invocation, canonical_receipt,
    encode_fields, receipt_head};
pub use collections::{StringMap, StringSet};
pub use crypto::{sha256_hex, verify_sig};
pub use hex::{hex_decode, hex_encode};
pub use model::{reason_str, AttenuationResult, AuthorityObject, BorderResult, Constraints,
    Decision, Delegation, Invocation, JsonVerdict, Reason, ReceiptClaims, Revocation, Scope,
    SignedReceipt, VerifierState};
pub use receipt::{sign_receipt, verify_signed_receipt};
pub use resource::resource_within;
pub use signing::{expand_seed, seed_from_hex, sign_authority, sign_invocation, SeedError};
pub use verdict::{default_clock_skew, default_invocation_age};
