//! The protocol's objects: grants, invocations, receipts, verifier state and decisions.
use vstd::prelude::*;
use crate::collections::{StringMap, StringSet};

verus! {

/// Why a request was allowed or denied.
#[derive(Debug, Clone, Copy, PartialEq, Eq, Structural)]
pub enum Reason {
    Okay,
    UntrustedIssuer,
    BadAuthoritySignature,
    SubjectKeyMismatch,
    BadInvocationSignature,
    AuthorityIdMismatch,
    SubjectMismatch,
    CapabilityMismatch,
    ResourceMismatch,
    InvalidAmount,
    ValueLimitExceeded,
    TotalLimitExceeded,
    CurrencyMismatch,
    InvalidConstraints,
    Expired,
    NotYetValid,
    InvocationTimeInvalid,
    MaxUsesExceeded,
    AudienceMismatch,
    NonceReplay,
    Revoked,
    RevocationStale,
    OfflineValueExceeded,
    ForbiddenCapability,
    HumanConfirmationRequired,
    DelegationNotSubset,
}

/// The outcome of a border check.
#[derive(Debug, Clone, Copy, PartialEq, Eq, Structural)]
pub enum Decision {
    Allow,
    Deny,
}

/// What a grant lets its subject spend, in integer minor units of one currency.
#[derive(Debug, Clone)]
pub struct Scope {
    pub currency: Option<String>,
    pub max_per_action_minor: u64,
    pub max_total_minor: u64,
}

/// When, how often and under what confirmation a grant may be used.
#[derive(Debug, Clone)]
pub struct Constraints {
    pub not_before: i64,
    pub expires: i64,
    pub max_uses: u64,
    pub require_human_confirmation: bool,
}

/// Whether, and how deep, a grant may be delegated further.
#[derive(Debug, Clone)]
pub struct Delegation {
    pub allowed: bool,
    pub max_depth: u32,
}

/// Where revocation of a grant is published and how fresh that knowledge must be.
#[derive(Debug, Clone)]
pub struct Revocation {
    pub method: String,
    pub id: String,
    pub freshness_required_sec: i64,
}

/// A bounded grant signed by a trusted human key.
#[derive(Debug, Clone)]
pub struct AuthorityObject {
    pub issuer: String,
    pub subject: String,
    pub capability: String,
    pub resource: String,
    pub scope: Scope,
    pub constraints: Constraints,
    pub delegation: Delegation,
    pub revocation: Revocation,
    /// Must equal the verifier-controlled key registered for `issuer`.
    pub issuer_pub: String,
    /// The only key permitted to exercise this grant.
    pub subject_pub: String,
    pub sig: String,
}

/// A request, signed by the subject key, to exercise a grant once.
#[derive(Debug, Clone)]
pub struct Invocation {
    pub authority_id: String,
    pub invocation_id: String,
    pub subject: String,
    pub capability: String,
    pub resource: String,
    pub amount_minor: u64,
    pub currency: Option<String>,
    pub audience: String,
    pub nonce: String,
    pub created: i64,
    pub human_confirmed: bool,
    pub subject_pub: String,
    pub sig: String,
}

/// The canonical claims of an allowed invocation.
#[derive(Debug, Clone)]
pub struct ReceiptClaims {
    pub authority_id: String,
    pub invocation_id: String,
    pub subject: String,
    pub capability: String,
    pub resource: String,
    pub amount_minor: u64,
    pub currency: Option<String>,
    pub audience: String,
    pub nonce: String,
    pub authorized_at: i64,
    pub previous_receipt_head: Option<String>,
}

/// Receipt claims signed by a gateway key.
#[derive(Debug, Clone)]
pub struct SignedReceipt {
    pub claims: ReceiptClaims,
    pub gateway_id: String,
    pub gateway_pub: String,
    pub sig: String,
}

/// A decision, its reason, and the receipt claims of an allowed request.
#[derive(Debug, Clone)]
pub struct BorderResult {
    pub decision: Decision,
    pub reason: Reason,
    pub receipt: Option<ReceiptClaims>,
}

/// What the verifier knows and has consumed.
#[derive(Debug)]
pub struct VerifierState {
    pub now: i64,
    pub audience: String,
    pub online: bool,
    pub revocation_age_sec: i64,
    pub revoked_ids: StringSet,
    pub used_nonces: StringSet,
    pub uses: StringMap<u64>,
    pub spent_total_minor: StringMap<u64>,
    pub offline_limit_minor: u64,
    pub max_clock_skew_sec: i64,
    pub max_invocation_age_sec: i64,
    pub trusted_issuers: StringMap<String>,
    pub previous_receipt_head: Option<String>,
}

/// The result of checking that a delegated grant only narrows its parent.
#[derive(Debug, Clone)]
pub struct AttenuationResult {
    pub ok: bool,
    pub violations: Vec<String>,
}

/// A decision rendered as JSON, with whether it allows.
pub struct JsonVerdict {
    pub json: String,
    pub allow: bool,
}

impl BorderResult {
    /// A denial for `reason`, with no receipt.
    pub fn deny(reason: Reason) -> (r: Self)
        ensures
            r.decision == Decision::Deny,
            r.reason == reason,
            r.receipt is None,
    {
        BorderResult { decision: Decision::Deny, reason, receipt: None }
    }
}

/// The protocol's code for a reason.
pub open spec fn reason_code(r: Reason) -> Seq<char> {
    match r {
        Reason::Okay => "OK"@,
        Reason::UntrustedIssuer => "UNTRUSTED_ISSUER"@,
        Reason::BadAuthoritySignature => "BAD_AUTHORITY_SIGNATURE"@,
        Reason::SubjectKeyMismatch => "SUBJECT_KEY_MISMATCH"@,
        Reason::BadInvocationSignature => "BAD_INVOCATION_SIGNATURE"@,
        Reason::AuthorityIdMismatch => "AUTHORITY_ID_MISMATCH"@,
        Reason::SubjectMismatch => "SUBJECT_MISMATCH"@,
        Reason::CapabilityMismatch => "CAPABILITY_MISMATCH"@,
        Reason::ResourceMismatch => "RESOURCE_MISMATCH"@,
        Reason::InvalidAmount => "INVALID_AMOUNT"@,
        Reason::ValueLimitExceeded => "VALUE_LIMIT_EXCEEDED"@,
        Reason::TotalLimitExceeded => "TOTAL_LIMIT_EXCEEDED"@,
        Reason::CurrencyMismatch => "CURRENCY_MISMATCH"@,
        Reason::InvalidConstraints => "INVALID_CONSTRAINTS"@,
        Reason::Expired => "EXPIRED"@,
        Reason::NotYetValid => "NOT_YET_VALID"@,
        Reason::InvocationTimeInvalid => "INVOCATION_TIME_INVALID"@,
        Reason::MaxUsesExceeded => "MAX_USES_EXCEEDED"@,
        Reason::AudienceMismatch => "AUDIENCE_MISMATCH"@,
        Reason::NonceReplay => "NONCE_REPLAY"@,
        Reason::Revoked => "REVOKED"@,
        Reason::RevocationStale => "REVOCATION_STALE"@,
        Reason::OfflineValueExceeded => "OFFLINE_VALUE_EXCEEDED"@,
        Reason::ForbiddenCapability => "FORBIDDEN_CAPABILITY"@,
        Reason::HumanConfirmationRequired => "HUMAN_CONFIRMATION_REQUIRED"@,
        Reason::DelegationNotSubset => "DELEGATION_NOT_SUBSET"@,
    }
}

/// The protocol's code for a reason.
pub fn reason_str(r: Reason) -> (s: &'static str)
    ensures
        s@ == reason_code(r),
{
    match r {
        Reason::Okay => "OK",
        Reason::UntrustedIssuer => "UNTRUSTED_ISSUER",
        Reason::BadAuthoritySignature => "BAD_AUTHORITY_SIGNATURE",
        Reason::SubjectKeyMismatch => "SUBJECT_KEY_MISMATCH",
        Reason::BadInvocationSignature => "BAD_INVOCATION_SIGNATURE",
        Reason::AuthorityIdMismatch => "AUTHORITY_ID_MISMATCH",
        Reason::SubjectMismatch => "SUBJECT_MISMATCH",
        Reason::CapabilityMismatch => "CAPABILITY_MISMATCH",
        Reason::ResourceMismatch => "RESOURCE_MISMATCH",
        Reason::InvalidAmount => "INVALID_AMOUNT",
        Reason::ValueLimitExceeded => "VALUE_LIMIT_EXCEEDED",
        Reason::TotalLimitExceeded => "TOTAL_LIMIT_EXCEEDED",
        Reason::CurrencyMismatch => "CURRENCY_MISMATCH",
        Reason::InvalidConstraints => "INVALID_CONSTRAINTS",
        Reason::Expired => "EXPIRED",
        Reason::NotYetValid => "NOT_YET_VALID",
        Reason::InvocationTimeInvalid => "INVOCATION_TIME_INVALID",
        Reason::MaxUsesExceeded => "MAX_USES_EXCEEDED",
        Reason::AudienceMismatch => "AUDIENCE_MISMATCH",
        Reason::NonceReplay => "NONCE_REPLAY",
        Reason::Revoked => "REVOKED",
        Reason::RevocationStale => "REVOCATION_STALE",
        Reason::OfflineValueExceeded => "OFFLINE_VALUE_EXCEEDED",
        Reason::ForbiddenCapability => "FORBIDDEN_CAPABILITY",
        Reason::HumanConfirmationRequired => "HUMAN_CONFIRMATION_REQUIRED",
        Reason::DelegationNotSubset => "DELEGATION_NOT_SUBSET",
    }
}

impl Default for VerifierState {
    /// A state at time 0 with an empty audience, offline, with nothing trusted, revoked, used
    /// or spent, no limits and no receipt chain.
    fn default() -> (r: Self)
        ensures
            r.now == 0,
            r.audience@ == Seq::<char>::empty(),
            !r.online,
            r.revocation_age_sec == 0,
            r.revoked_ids@ == Set::<Seq<char>>::empty(),
            r.used_nonces@ == Set::<Seq<char>>::empty(),
            r.uses@ == Map::<Seq<char>, u64>::empty(),
            r.spent_total_minor@ == Map::<Seq<char>, u64>::empty(),
            r.offline_limit_minor == 0,
            r.max_clock_skew_sec == 0,
            r.max_invocation_age_sec == 0,
            r.trusted_issuers@ == Map::<Seq<char>, Seq<char>>::empty(),
            r.previous_receipt_head is None,
    {
        VerifierState {
            now: 0,
            audience: String::new(),
            online: false,
            revocation_age_sec: 0,
            revoked_ids: StringSet::new(),
            used_nonces: StringSet::new(),
            uses: StringMap::new(),
            spent_total_minor: StringMap::new(),
            offline_limit_minor: 0,
            max_clock_skew_sec: 0,
            max_invocation_age_sec: 0,
            trusted_issuers: StringMap::new(),
            previous_receipt_head: None,
        }
    }
}

} // verus!
