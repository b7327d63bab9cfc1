//! Border control: the deterministic decision on an invocation of a grant, and the one state
//! transition that consumes an allowed invocation.
use vstd::prelude::*;
use crate::canonical::{authority_id, authority_id_text, authority_text, canonical_authority,
    canonical_invocation, invocation_text, opt_text, receipt_head, receipt_head_text};
use crate::crypto::{signature_valid, verify_sig};
use crate::model::{AuthorityObject, BorderResult, Decision, Invocation, ReceiptClaims, Reason,
    VerifierState};
use crate::resource::{resource_within, within};
use crate::text::str_equal;

verus! {

/// Capability names that the protocol forbids any grant to carry.
pub const FORBIDDEN_CAPS: [&'static str; 5] = [
    "root.export",
    "recovery.export",
    "audit.disable",
    "authority.exceed-owner",
    "history.rewrite",
];

/// Whether `cap` is one of [`FORBIDDEN_CAPS`].
pub open spec fn is_forbidden(cap: Seq<char>) -> bool {
    exists|k: int| 0 <= k < FORBIDDEN_CAPS@.len() && #[trigger] FORBIDDEN_CAPS@[k]@ == cap
}

/// A grant is well formed: its names and keys are present, its validity window is
/// non-empty, it may be used at least once, its revocation is named with a non-negative
/// freshness, and a bounded total is at least the per-action limit.
pub open spec fn valid_shape(a: AuthorityObject) -> bool {
    &&& a.issuer@.len() > 0
    &&& a.subject@.len() > 0
    &&& a.capability@.len() > 0
    &&& a.resource@.len() > 0
    &&& a.issuer_pub@.len() > 0
    &&& a.subject_pub@.len() > 0
    &&& a.constraints.not_before < a.constraints.expires
    &&& a.constraints.max_uses > 0
    &&& a.revocation.freshness_required_sec >= 0
    &&& a.revocation.method@.len() > 0
    &&& a.revocation.id@.len() > 0
    &&& (a.scope.max_total_minor == 0 || a.scope.max_per_action_minor <= a.scope.max_total_minor)
}

/// The registry maps the grant's issuer to exactly the grant's issuer key.
pub open spec fn issuer_trusted(registry: Map<Seq<char>, Seq<char>>, a: AuthorityObject) -> bool {
    registry.contains_key(a.issuer@) && registry[a.issuer@] == a.issuer_pub@
}

/// Two optional strings are both absent or both present with the same text.
pub open spec fn same_option(x: Option<String>, y: Option<String>) -> bool {
    match (x, y) {
        (None, None) => true,
        (Some(p), Some(q)) => p@ == q@,
        _ => false,
    }
}

/// The count recorded under `k`, or 0.
pub open spec fn count_of(m: Map<Seq<char>, u64>, k: Seq<char>) -> int {
    if m.contains_key(k) {
        m[k] as int
    } else {
        0
    }
}

/// `x` clamped to the range of `i64` (saturating arithmetic).
pub open spec fn clamp_i64(x: int) -> int {
    if x > i64::MAX {
        i64::MAX as int
    } else if x < i64::MIN {
        i64::MIN as int
    } else {
        x
    }
}

/// The invocation was created inside the grant's window, not further in the future than the
/// allowed clock skew, and not longer ago than the allowed age.
pub open spec fn invocation_time_ok(a: AuthorityObject, i: Invocation, s: VerifierState) -> bool {
    &&& i.created >= a.constraints.not_before
    &&& i.created < a.constraints.expires
    &&& i.created <= clamp_i64(s.now + s.max_clock_skew_sec)
    &&& clamp_i64(s.now - i.created) <= s.max_invocation_age_sec
}

/// The reason for the checks that follow the signatures, given the id derived from the grant.
pub open spec fn usage_reason(a: AuthorityObject, i: Invocation, s: VerifierState, derived_id: Seq<char>) -> Reason {
    let spent = count_of(s.spent_total_minor@, i.authority_id@);
    let used = count_of(s.uses@, i.authority_id@);
    if i.authority_id@ != derived_id {
        Reason::AuthorityIdMismatch
    } else if i.subject@ != a.subject@ {
        Reason::SubjectMismatch
    } else if i.capability@ != a.capability@ {
        Reason::CapabilityMismatch
    } else if !within(i.resource@, a.resource@) {
        Reason::ResourceMismatch
    } else if i.amount_minor > 0 && (opt_text(i.currency).len() == 0 || !same_option(
        a.scope.currency,
        i.currency,
    )) {
        Reason::CurrencyMismatch
    } else if i.amount_minor > 0 && i.amount_minor > a.scope.max_per_action_minor {
        Reason::ValueLimitExceeded
    } else if i.amount_minor > 0 && spent + i.amount_minor > a.scope.max_total_minor {
        Reason::TotalLimitExceeded
    } else if i.amount_minor == 0 && i.currency is Some {
        Reason::InvalidAmount
    } else if s.now < a.constraints.not_before {
        Reason::NotYetValid
    } else if s.now >= a.constraints.expires {
        Reason::Expired
    } else if !invocation_time_ok(a, i, s) {
        Reason::InvocationTimeInvalid
    } else if used >= a.constraints.max_uses {
        Reason::MaxUsesExceeded
    } else if i.audience@ != s.audience@ {
        Reason::AudienceMismatch
    } else if i.nonce@.len() == 0 || s.used_nonces@.contains(i.nonce@) {
        Reason::NonceReplay
    } else if s.revoked_ids@.contains(a.revocation.id@) {
        Reason::Revoked
    } else if !s.online && (s.revocation_age_sec < 0 || s.revocation_age_sec
        > a.revocation.freshness_required_sec) {
        Reason::RevocationStale
    } else if !s.online && i.amount_minor > s.offline_limit_minor {
        Reason::OfflineValueExceeded
    } else if a.constraints.require_human_confirmation && !i.human_confirmed {
        Reason::HumanConfirmationRequired
    } else {
        Reason::Okay
    }
}

/// The reason for the checks from the signatures on, given whether the grant's and the
/// invocation's signatures hold and the id derived from the grant.
pub open spec fn signed_reason(
    a: AuthorityObject,
    i: Invocation,
    s: VerifierState,
    authority_sig_ok: bool,
    invocation_sig_ok: bool,
    derived_id: Seq<char>,
) -> Reason {
    if !authority_sig_ok {
        Reason::BadAuthoritySignature
    } else if i.subject_pub@ != a.subject_pub@ {
        Reason::SubjectKeyMismatch
    } else if !invocation_sig_ok {
        Reason::BadInvocationSignature
    } else {
        usage_reason(a, i, s, derived_id)
    }
}

/// The reason of the first check that an invocation fails, or `Okay`.
pub open spec fn border_reason(a: AuthorityObject, i: Invocation, s: VerifierState) -> Reason {
    if !valid_shape(a) {
        Reason::InvalidConstraints
    } else if is_forbidden(a.capability@) {
        Reason::ForbiddenCapability
    } else if !issuer_trusted(s.trusted_issuers@, a) {
        Reason::UntrustedIssuer
    } else {
        signed_reason(
            a,
            i,
            s,
            signature_valid(authority_text(a), a.issuer_pub@, a.sig@),
            signature_valid(invocation_text(i), i.subject_pub@, i.sig@),
            authority_id_text(a),
        )
    }
}

/// The receipt claims of an allowed invocation.
pub open spec fn claims_for(i: Invocation, s: VerifierState) -> ReceiptClaims {
    ReceiptClaims {
        authority_id: i.authority_id,
        invocation_id: i.invocation_id,
        subject: i.subject,
        capability: i.capability,
        resource: i.resource,
        amount_minor: i.amount_minor,
        currency: i.currency,
        audience: i.audience,
        nonce: i.nonce,
        authorized_at: s.now,
        previous_receipt_head: s.previous_receipt_head,
    }
}

/// The result for a reason: an allow with receipt claims for `Okay`, a bare denial otherwise.
pub open spec fn outcome(reason: Reason, i: Invocation, s: VerifierState) -> BorderResult {
    if reason == Reason::Okay {
        BorderResult {
            decision: Decision::Allow,
            reason: Reason::Okay,
            receipt: Some(claims_for(i, s)),
        }
    } else {
        BorderResult { decision: Decision::Deny, reason, receipt: None }
    }
}

fn clone_option(v: &Option<String>) -> (r: Option<String>)
    ensures
        r == *v,
{
    match v {
        Some(s) => Some(s.clone()),
        None => None,
    }
}

fn options_same(x: &Option<String>, y: &Option<String>) -> (r: bool)
    ensures
        r == same_option(*x, *y),
{
    match (x, y) {
        (None, None) => true,
        (Some(p), Some(q)) => *p == *q,
        _ => false,
    }
}

fn count(m: &crate::collections::StringMap<u64>, k: &str) -> (r: u64)
    ensures
        r == count_of(m@, k@),
{
    match m.get(k) {
        Some(v) => *v,
        None => 0,
    }
}

fn saturating_add_i64(x: i64, y: i64) -> (r: i64)
    ensures
        r == clamp_i64(x + y),
{
    let s: i128 = x as i128 + y as i128;
    if s > i64::MAX as i128 {
        i64::MAX
    } else if s < i64::MIN as i128 {
        i64::MIN
    } else {
        s as i64
    }
}

fn saturating_sub_i64(x: i64, y: i64) -> (r: i64)
    ensures
        r == clamp_i64(x - y),
{
    let s: i128 = x as i128 - y as i128;
    if s > i64::MAX as i128 {
        i64::MAX
    } else if s < i64::MIN as i128 {
        i64::MIN
    } else {
        s as i64
    }
}

/// Whether `cap` is one of [`FORBIDDEN_CAPS`].
pub fn forbidden_capability(cap: &str) -> (r: bool)
    ensures
        r == is_forbidden(cap@),
{
    let mut k: usize = 0;
    while k < 5
        invariant
            k <= 5,
            forall|j: int| 0 <= j < k ==> FORBIDDEN_CAPS@[j]@ != cap@,
        decreases 5 - k,
    {
        if str_equal(FORBIDDEN_CAPS[k], cap) {
            return true;
        }
        k = k + 1;
    }
    false
}

/// Whether a grant is well formed (see [`valid_shape`]).
pub fn valid_authority_shape(a: &AuthorityObject) -> (r: bool)
    ensures
        r == valid_shape(*a),
{
    !a.issuer.as_str().is_empty() && !a.subject.as_str().is_empty()
        && !a.capability.as_str().is_empty() && !a.resource.as_str().is_empty()
        && !a.issuer_pub.as_str().is_empty() && !a.subject_pub.as_str().is_empty()
        && a.constraints.not_before < a.constraints.expires && a.constraints.max_uses > 0
        && a.revocation.freshness_required_sec >= 0 && !a.revocation.method.as_str().is_empty()
        && !a.revocation.id.as_str().is_empty() && (a.scope.max_total_minor == 0
        || a.scope.max_per_action_minor <= a.scope.max_total_minor)
}

/// The checks that follow the signatures, with `derived_id` the id derived from the grant:
/// binding to the grant, money, time, use budget, audience, replay, revocation, offline
/// limits and human confirmation.
pub fn check_grant_use(a: &AuthorityObject, i: &Invocation, state: &VerifierState, derived_id: &str) -> (r: BorderResult)
    ensures
        r == outcome(usage_reason(*a, *i, *state, derived_id@), *i, *state),
{
    if !str_equal(i.authority_id.as_str(), derived_id) {
        return BorderResult::deny(Reason::AuthorityIdMismatch);
    }
    if i.subject != a.subject {
        return BorderResult::deny(Reason::SubjectMismatch);
    }
    if i.capability != a.capability {
        return BorderResult::deny(Reason::CapabilityMismatch);
    }
    if !resource_within(i.resource.as_str(), a.resource.as_str()) {
        return BorderResult::deny(Reason::ResourceMismatch);
    }
    if i.amount_minor > 0 {
        let currency_missing = match &i.currency {
            Some(c) => c.as_str().is_empty(),
            None => true,
        };
        if currency_missing || !options_same(&a.scope.currency, &i.currency) {
            return BorderResult::deny(Reason::CurrencyMismatch);
        }
        if i.amount_minor > a.scope.max_per_action_minor {
            return BorderResult::deny(Reason::ValueLimitExceeded);
        }
        let already = count(&state.spent_total_minor, i.authority_id.as_str());
        let exceeded = match already.checked_add(i.amount_minor) {
            Some(total) => total > a.scope.max_total_minor,
            None => true,
        };
        if exceeded {
            return BorderResult::deny(Reason::TotalLimitExceeded);
        }
    } else if i.currency.is_some() {
        return BorderResult::deny(Reason::InvalidAmount);
    }
    if state.now < a.constraints.not_before {
        return BorderResult::deny(Reason::NotYetValid);
    }
    if state.now >= a.constraints.expires {
        return BorderResult::deny(Reason::Expired);
    }
    if i.created < a.constraints.not_before || i.created >= a.constraints.expires || i.created
        > saturating_add_i64(state.now, state.max_clock_skew_sec) || saturating_sub_i64(
        state.now,
        i.created,
    ) > state.max_invocation_age_sec {
        return BorderResult::deny(Reason::InvocationTimeInvalid);
    }
    if count(&state.uses, i.authority_id.as_str()) >= a.constraints.max_uses {
        return BorderResult::deny(Reason::MaxUsesExceeded);
    }
    if i.audience != state.audience {
        return BorderResult::deny(Reason::AudienceMismatch);
    }
    if i.nonce.as_str().is_empty() || state.used_nonces.contains(i.nonce.as_str()) {
        return BorderResult::deny(Reason::NonceReplay);
    }
    if state.revoked_ids.contains(a.revocation.id.as_str()) {
        return BorderResult::deny(Reason::Revoked);
    }
    if !state.online {
        if state.revocation_age_sec < 0 || state.revocation_age_sec
            > a.revocation.freshness_required_sec {
            return BorderResult::deny(Reason::RevocationStale);
        }
        if i.amount_minor > state.offline_limit_minor {
            return BorderResult::deny(Reason::OfflineValueExceeded);
        }
    }
    if a.constraints.require_human_confirmation && !i.human_confirmed {
        return BorderResult::deny(Reason::HumanConfirmationRequired);
    }
    let receipt = ReceiptClaims {
        authority_id: i.authority_id.clone(),
        invocation_id: i.invocation_id.clone(),
        subject: i.subject.clone(),
        capability: i.capability.clone(),
        resource: i.resource.clone(),
        amount_minor: i.amount_minor,
        currency: clone_option(&i.currency),
        audience: i.audience.clone(),
        nonce: i.nonce.clone(),
        authorized_at: state.now,
        previous_receipt_head: clone_option(&state.previous_receipt_head),
    };
    BorderResult { decision: Decision::Allow, reason: Reason::Okay, receipt: Some(receipt) }
}

/// Decides whether an invocation may exercise a grant. The result allows exactly when every
/// check passes, in the protocol's order, and then carries the receipt claims; otherwise it
/// denies with the reason of the first failing check.
pub fn border_check(a: &AuthorityObject, i: &Invocation, state: &VerifierState) -> (r: BorderResult)
    ensures
        r == outcome(border_reason(*a, *i, *state), *i, *state),
{
    if !valid_authority_shape(a) {
        return BorderResult::deny(Reason::InvalidConstraints);
    }
    if forbidden_capability(a.capability.as_str()) {
        return BorderResult::deny(Reason::ForbiddenCapability);
    }
    let trusted = match state.trusted_issuers.get(a.issuer.as_str()) {
        Some(k) => *k == a.issuer_pub,
        None => false,
    };
    if !trusted {
        return BorderResult::deny(Reason::UntrustedIssuer);
    }
    let authority_sig_ok = verify_sig(
        canonical_authority(a).as_str(),
        a.issuer_pub.as_str(),
        a.sig.as_str(),
    );
    let invocation_sig_ok = verify_sig(
        canonical_invocation(i).as_str(),
        i.subject_pub.as_str(),
        i.sig.as_str(),
    );
    let id = authority_id(a);
    check_signed_invocation(a, i, state, authority_sig_ok, invocation_sig_ok, id.as_str())
}

/// The checks from the signatures on, given whether the grant's and the invocation's
/// signatures hold and the id derived from the grant: the grant's signature, the binding of
/// the invocation key to the grant's subject key, the invocation's signature, then
/// [`check_grant_use`].
pub fn check_signed_invocation(
    a: &AuthorityObject,
    i: &Invocation,
    state: &VerifierState,
    authority_sig_ok: bool,
    invocation_sig_ok: bool,
    derived_id: &str,
) -> (r: BorderResult)
    ensures
        r == outcome(
            signed_reason(*a, *i, *state, authority_sig_ok, invocation_sig_ok, derived_id@),
            *i,
            *state,
        ),
{
    if !authority_sig_ok {
        return BorderResult::deny(Reason::BadAuthoritySignature);
    }
    if i.subject_pub != a.subject_pub {
        return BorderResult::deny(Reason::SubjectKeyMismatch);
    }
    if !invocation_sig_ok {
        return BorderResult::deny(Reason::BadInvocationSignature);
    }
    check_grant_use(a, i, state, derived_id)
}

/// `after` is `before` with an invocation consumed: its nonce used, one more use and its
/// amount (saturating) counted against its authority id, and `head` as the new head of the
/// receipt chain. Nothing else changes.
pub open spec fn recorded(before: VerifierState, after: VerifierState, i: Invocation, head: Seq<char>) -> bool {
    let id = i.authority_id@;
    let spent = count_of(before.spent_total_minor@, id) + i.amount_minor;
    &&& after.used_nonces@ == before.used_nonces@.insert(i.nonce@)
    &&& after.uses@ == before.uses@.insert(id, (count_of(before.uses@, id) + 1) as u64)
    &&& after.spent_total_minor@ == before.spent_total_minor@.insert(
        id,
        (if spent > u64::MAX { u64::MAX as int } else { spent }) as u64,
    )
    &&& after.previous_receipt_head matches Some(h) && h@ == head
    &&& after.now == before.now
    &&& after.audience == before.audience
    &&& after.online == before.online
    &&& after.revocation_age_sec == before.revocation_age_sec
    &&& after.revoked_ids == before.revoked_ids
    &&& after.offline_limit_minor == before.offline_limit_minor
    &&& after.max_clock_skew_sec == before.max_clock_skew_sec
    &&& after.max_invocation_age_sec == before.max_invocation_age_sec
    &&& after.trusted_issuers == before.trusted_issuers
}

/// Consumes an allowed invocation: marks its nonce used, counts one use and its amount
/// against its authority id, and moves the receipt chain head to `head`.
pub fn record_authorization(state: &mut VerifierState, i: &Invocation, head: String)
    requires
        count_of(old(state).uses@, i.authority_id@) < u64::MAX,
    ensures
        recorded(*old(state), *final(state), *i, head@),
{
    state.used_nonces.insert(i.nonce.clone());
    let uses = count(&state.uses, i.authority_id.as_str());
    state.uses.insert(i.authority_id.clone(), uses + 1);
    let spent = count(&state.spent_total_minor, i.authority_id.as_str());
    state.spent_total_minor.insert(i.authority_id.clone(), spent.saturating_add(i.amount_minor));
    state.previous_receipt_head = Some(head);
}

/// Decides an invocation and, when it is allowed, consumes it in one state transition.
/// Shared deployments must run this inside one database transaction or lock so that two
/// callers cannot observe the same state before consumption.
pub fn authorize_and_record(a: &AuthorityObject, i: &Invocation, state: &mut VerifierState) -> (r: BorderResult)
    ensures
        r == outcome(border_reason(*a, *i, *old(state)), *i, *old(state)),
        r.decision == Decision::Deny ==> *final(state) == *old(state),
        r.decision == Decision::Allow ==> recorded(
            *old(state),
            *final(state),
            *i,
            receipt_head_text(claims_for(*i, *old(state))),
        ),
        r.decision == Decision::Allow ==> count_of(final(state).uses@, i.authority_id@)
            == count_of(old(state).uses@, i.authority_id@) + 1,
{
    let result = border_check(a, i, state);
    let ghost before = *state;
    if result.decision == Decision::Allow {
        proof {
            lemma_allowed_facts(*a, *i, *state);
        }
        match &result.receipt {
            Some(receipt) => {
                let head = receipt_head(receipt);
                record_authorization(state, i, head);
                proof {
                    lemma_recorded_counts_one_use(before, *state, *i, head@, i.authority_id@);
                }
            },
            None => {},
        }
    }
    result
}

/// What an allowed invocation is known to satisfy.
pub proof fn lemma_allowed_facts(a: AuthorityObject, i: Invocation, s: VerifierState)
    requires
        border_reason(a, i, s) == Reason::Okay,
    ensures
        valid_shape(a),
        a.issuer@.len() > 0 && a.subject@.len() > 0 && a.capability@.len() > 0
            && a.resource@.len() > 0 && a.issuer_pub@.len() > 0 && a.subject_pub@.len() > 0,
        a.constraints.not_before < a.constraints.expires && a.constraints.max_uses > 0,
        a.revocation.freshness_required_sec >= 0 && a.revocation.method@.len() > 0
            && a.revocation.id@.len() > 0,
        a.scope.max_total_minor == 0 || a.scope.max_per_action_minor <= a.scope.max_total_minor,
        !is_forbidden(a.capability@),
        forall|k: int| 0 <= k < 5 ==> #[trigger] FORBIDDEN_CAPS@[k]@ != a.capability@,
        issuer_trusted(s.trusted_issuers@, a),
        s.trusted_issuers@.contains_key(a.issuer@) && s.trusted_issuers@[a.issuer@] == a.issuer_pub@,
        signature_valid(authority_text(a), a.issuer_pub@, a.sig@),
        i.subject_pub@ == a.subject_pub@,
        signature_valid(invocation_text(i), i.subject_pub@, i.sig@),
        i.authority_id@ == authority_id_text(a),
        i.subject@ == a.subject@,
        i.capability@ == a.capability@,
        within(i.resource@, a.resource@),
        i.amount_minor > 0 ==> same_option(a.scope.currency, i.currency) && opt_text(i.currency).len() > 0,
        i.amount_minor > 0 ==> (i.currency matches Some(c) && c@.len() > 0
            && (a.scope.currency matches Some(d) && d@ == c@)),
        i.amount_minor <= a.scope.max_per_action_minor || i.amount_minor == 0,
        i.amount_minor > 0 ==> count_of(s.spent_total_minor@, i.authority_id@) + i.amount_minor
            <= a.scope.max_total_minor,
        i.amount_minor == 0 ==> i.currency is None,
        a.constraints.not_before <= s.now < a.constraints.expires,
        invocation_time_ok(a, i, s),
        a.constraints.not_before <= i.created < a.constraints.expires,
        i.created <= s.now + s.max_clock_skew_sec || i.created == i64::MIN,
        s.now - i.created <= s.max_invocation_age_sec || s.max_invocation_age_sec == i64::MAX,
        count_of(s.uses@, i.authority_id@) < a.constraints.max_uses,
        i.audience@ == s.audience@,
        i.nonce@.len() > 0,
        !s.used_nonces@.contains(i.nonce@),
        !s.revoked_ids@.contains(a.revocation.id@),
        !s.online ==> 0 <= s.revocation_age_sec <= a.revocation.freshness_required_sec
            && i.amount_minor <= s.offline_limit_minor,
        a.constraints.require_human_confirmation ==> i.human_confirmed,
{
}

/// An invocation is never allowed twice: once an allowed invocation has been recorded, the
/// same grant and invocation are denied against the resulting state.
pub proof fn lemma_no_replay(a: AuthorityObject, i: Invocation, before: VerifierState, after: VerifierState, head: Seq<char>)
    requires
        border_reason(a, i, before) == Reason::Okay,
        recorded(before, after, i, head),
    ensures
        border_reason(a, i, after) != Reason::Okay,
        outcome(border_reason(a, i, after), i, after).decision == Decision::Deny,
{
    assert(after.used_nonces@.contains(i.nonce@));
    if border_reason(a, i, after) == Reason::Okay {
        lemma_allowed_facts(a, i, after);
    }
}

/// Recording an allowed invocation keeps its grant within budget: its uses stay within the
/// grant's use budget and, for a payment, the total spent stays within its total limit.
pub proof fn lemma_recorded_within_budget(a: AuthorityObject, i: Invocation, before: VerifierState, after: VerifierState, head: Seq<char>)
    requires
        border_reason(a, i, before) == Reason::Okay,
        recorded(before, after, i, head),
    ensures
        count_of(after.uses@, i.authority_id@) <= a.constraints.max_uses,
        i.amount_minor > 0 ==> count_of(after.spent_total_minor@, i.authority_id@)
            <= a.scope.max_total_minor,
{
    lemma_allowed_facts(a, i, before);
    assert(after.uses@.contains_key(i.authority_id@));
    assert(after.spent_total_minor@.contains_key(i.authority_id@));
}

/// Receipts chain: the receipt of the next allowed invocation names, as its previous head,
/// the head of the receipt recorded before it.
pub proof fn lemma_receipts_chain(
    a1: AuthorityObject,
    i1: Invocation,
    s0: VerifierState,
    s1: VerifierState,
    a2: AuthorityObject,
    i2: Invocation,
)
    requires
        border_reason(a1, i1, s0) == Reason::Okay,
        recorded(s0, s1, i1, receipt_head_text(claims_for(i1, s0))),
        border_reason(a2, i2, s1) == Reason::Okay,
    ensures
        outcome(border_reason(a2, i2, s1), i2, s1).receipt matches Some(r2)
            && r2.previous_receipt_head matches Some(h)
            && h@ == receipt_head_text(
            outcome(border_reason(a1, i1, s0), i1, s0).receipt->0,
        ),
{
}

/// Completeness: an invocation that meets every condition of the protocol is allowed. The
/// grant is well formed, carries no forbidden capability and comes from a trusted issuer key;
/// both signatures hold and the invocation key is the grant's subject key; the invocation
/// names the grant's id, subject and capability and a resource within the grant's; a payment
/// names the grant's currency and stays within the per-action and total limits, and a
/// non-payment names no currency; the grant is in force now; the invocation was created
/// inside the grant's window, no later than `now + max_clock_skew_sec` and no more than
/// `max_invocation_age_sec` seconds before `now`; a use is left; audience, nonce, revocation,
/// offline limits and human confirmation are satisfied.
pub proof fn lemma_all_conditions_allow(a: AuthorityObject, i: Invocation, s: VerifierState)
    requires
        a.issuer@.len() > 0,
        a.subject@.len() > 0,
        a.capability@.len() > 0,
        a.resource@.len() > 0,
        a.issuer_pub@.len() > 0,
        a.subject_pub@.len() > 0,
        a.constraints.not_before < a.constraints.expires,
        a.constraints.max_uses > 0,
        a.revocation.freshness_required_sec >= 0,
        a.revocation.method@.len() > 0,
        a.revocation.id@.len() > 0,
        a.scope.max_total_minor == 0 || a.scope.max_per_action_minor <= a.scope.max_total_minor,
        forall|k: int| 0 <= k < 5 ==> #[trigger] FORBIDDEN_CAPS@[k]@ != a.capability@,
        s.trusted_issuers@.contains_key(a.issuer@),
        s.trusted_issuers@[a.issuer@] == a.issuer_pub@,
        signature_valid(authority_text(a), a.issuer_pub@, a.sig@),
        i.subject_pub@ == a.subject_pub@,
        signature_valid(invocation_text(i), i.subject_pub@, i.sig@),
        i.authority_id@ == authority_id_text(a),
        i.subject@ == a.subject@,
        i.capability@ == a.capability@,
        within(i.resource@, a.resource@),
        i.amount_minor == 0 ==> i.currency is None,
        i.amount_minor > 0 ==> (i.currency matches Some(c) && c@.len() > 0
            && (a.scope.currency matches Some(d) && d@ == c@)),
        i.amount_minor <= a.scope.max_per_action_minor,
        i.amount_minor > 0 ==> count_of(s.spent_total_minor@, i.authority_id@) + i.amount_minor
            <= a.scope.max_total_minor,
        a.constraints.not_before <= s.now < a.constraints.expires,
        a.constraints.not_before <= i.created < a.constraints.expires,
        i.created <= s.now + s.max_clock_skew_sec,
        s.now - i.created <= s.max_invocation_age_sec,
        count_of(s.uses@, i.authority_id@) < a.constraints.max_uses,
        i.audience@ == s.audience@,
        i.nonce@.len() > 0,
        !s.used_nonces@.contains(i.nonce@),
        !s.revoked_ids@.contains(a.revocation.id@),
        !s.online ==> 0 <= s.revocation_age_sec <= a.revocation.freshness_required_sec
            && i.amount_minor <= s.offline_limit_minor,
        a.constraints.require_human_confirmation ==> i.human_confirmed,
    ensures
        border_reason(a, i, s) == Reason::Okay,
        outcome(border_reason(a, i, s), i, s).decision == Decision::Allow,
{
    assert(FORBIDDEN_CAPS@.len() == 5);
    assert(!is_forbidden(a.capability@));
}

/// Recording an allowed invocation counts exactly one more use under its authority id,
/// whatever its amount, and leaves the uses counted under every other id unchanged.
pub proof fn lemma_recorded_counts_one_use(before: VerifierState, after: VerifierState, i: Invocation, head: Seq<char>, other: Seq<char>)
    requires
        recorded(before, after, i, head),
        count_of(before.uses@, i.authority_id@) < u64::MAX,
    ensures
        count_of(after.uses@, i.authority_id@) == count_of(before.uses@, i.authority_id@) + 1,
        other != i.authority_id@ ==> count_of(after.uses@, other) == count_of(before.uses@, other),
{
    assert(after.uses@.contains_key(i.authority_id@));
    if other != i.authority_id@ {
        assert(after.uses@.contains_key(other) == before.uses@.contains_key(other));
    }
}

/// A sequence of decisions on one grant: each allowed invocation is recorded with the head of
/// its receipt, and each denied one leaves the state as it was (what
/// [`authorize_and_record`] does, call after call).
pub open spec fn is_run(a: AuthorityObject, invs: Seq<Invocation>, states: Seq<VerifierState>) -> bool {
    &&& states.len() == invs.len() + 1
    &&& forall|j: int|
        0 <= j < invs.len() ==> if border_reason(a, #[trigger] invs[j], states[j]) == Reason::Okay {
            recorded(states[j], states[j + 1], invs[j], receipt_head_text(claims_for(invs[j], states[j])))
        } else {
            states[j + 1] == states[j]
        }
}

/// How many of the first `k` invocations of a run are allowed.
pub open spec fn allowed_count(a: AuthorityObject, invs: Seq<Invocation>, states: Seq<VerifierState>, k: nat) -> nat
    decreases k,
{
    if k == 0 {
        0
    } else {
        allowed_count(a, invs, states, (k - 1) as nat) + if border_reason(
            a,
            invs[k - 1],
            states[k - 1],
        ) == Reason::Okay {
            1nat
        } else {
            0nat
        }
    }
}

/// The use budget holds over any run: a grant with `max_uses` n allows at most n invocations
/// in any sequence of decisions, and each allowed one adds exactly one use under the grant's
/// id.
pub proof fn lemma_run_within_use_budget(a: AuthorityObject, invs: Seq<Invocation>, states: Seq<VerifierState>)
    requires
        is_run(a, invs, states),
    ensures
        allowed_count(a, invs, states, invs.len()) <= a.constraints.max_uses,
        count_of(states[invs.len() as int].uses@, authority_id_text(a)) == count_of(
            states[0].uses@,
            authority_id_text(a),
        ) + allowed_count(a, invs, states, invs.len()),
{
    lemma_run_prefix(a, invs, states, invs.len());
}

proof fn lemma_run_prefix(a: AuthorityObject, invs: Seq<Invocation>, states: Seq<VerifierState>, k: nat)
    requires
        is_run(a, invs, states),
        k <= invs.len(),
    ensures
        count_of(states[k as int].uses@, authority_id_text(a)) == count_of(
            states[0].uses@,
            authority_id_text(a),
        ) + allowed_count(a, invs, states, k),
        allowed_count(a, invs, states, k) == 0 || count_of(
            states[k as int].uses@,
            authority_id_text(a),
        ) <= a.constraints.max_uses,
    decreases k,
{
    if k > 0 {
        let j = k - 1;
        lemma_run_prefix(a, invs, states, j as nat);
        let id = authority_id_text(a);
        if border_reason(a, invs[j], states[j]) == Reason::Okay {
            lemma_allowed_facts(a, invs[j], states[j]);
            lemma_recorded_counts_one_use(
                states[j],
                states[j + 1],
                invs[j],
                receipt_head_text(claims_for(invs[j], states[j])),
                id,
            );
        }
    }
}

} // verus!
