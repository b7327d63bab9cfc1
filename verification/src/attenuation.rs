//! Delegation: a child grant may only narrow the grant it was delegated from.
use vstd::prelude::*;
use crate::border::same_option;
use crate::canonical::{authority_text, canonical_authority};
use crate::collections::string_views;
use crate::crypto::{signature_valid, verify_sig};
use crate::model::{AttenuationResult, AuthorityObject};
use crate::resource::{lemma_within_transitive, resource_within, within};
use crate::text::owned;

verus! {

/// `msg` when the rule is violated, nothing otherwise.
pub open spec fn note(violated: bool, msg: Seq<char>) -> Seq<Seq<char>> {
    if violated {
        seq![msg]
    } else {
        Seq::<Seq<char>>::empty()
    }
}

/// The rules on signatures and on who may delegate, in order.
pub open spec fn authorization_violations(child: AuthorityObject, parent: AuthorityObject, parent_sig_ok: bool, child_sig_ok: bool) -> Seq<Seq<char>> {
    note(!parent_sig_ok, "parent signature is invalid"@)
        + note(!child_sig_ok, "child signature is invalid"@)
        + note(!parent.delegation.allowed, "parent does not permit delegation"@)
        + note(parent.delegation.max_depth == 0, "parent delegation depth is exhausted"@)
        + note(child.issuer@ != parent.subject@ || child.issuer_pub@ != parent.subject_pub@, "child must be issued by the parent's bound subject key"@)
}

/// The rules on capability, resource, currency and money limits, in order.
pub open spec fn scope_violations(child: AuthorityObject, parent: AuthorityObject, parent_sig_ok: bool, child_sig_ok: bool) -> Seq<Seq<char>> {
    note(child.capability@ != parent.capability@, "capability differs from parent"@)
        + note(!within(child.resource@, parent.resource@), "resource is not within parent"@)
        + note(!same_option(child.scope.currency, parent.scope.currency), "currency differs from parent"@)
        + note(child.scope.max_per_action_minor > parent.scope.max_per_action_minor, "per-action limit exceeds parent"@)
        + note(child.scope.max_total_minor > parent.scope.max_total_minor, "total limit exceeds parent"@)
}

/// The rules on validity window, use budget and human confirmation, in order.
pub open spec fn window_violations(child: AuthorityObject, parent: AuthorityObject, parent_sig_ok: bool, child_sig_ok: bool) -> Seq<Seq<char>> {
    note(child.constraints.not_before < parent.constraints.not_before, "child starts before parent"@)
        + note(child.constraints.expires > parent.constraints.expires, "child expires after parent"@)
        + note(child.constraints.max_uses > parent.constraints.max_uses, "child use budget exceeds parent"@)
        + note(parent.constraints.require_human_confirmation && !child.constraints.require_human_confirmation, "child removes required human confirmation"@)
}

/// The rules on delegation depth and revocation, in order.
pub open spec fn revocation_violations(child: AuthorityObject, parent: AuthorityObject, parent_sig_ok: bool, child_sig_ok: bool) -> Seq<Seq<char>> {
    note(child.delegation.max_depth >= parent.delegation.max_depth, "delegation depth is not narrower"@)
        + note(child.revocation.method@ != parent.revocation.method@ || child.revocation.id@ != parent.revocation.id@, "child must preserve parent revocation"@)
        + note(child.revocation.freshness_required_sec > parent.revocation.freshness_required_sec, "child permits staler revocation state"@)
}

/// The rules that a delegation breaks, in the order they are checked, given whether the
/// parent's and the child's signatures are valid.
pub open spec fn violations(child: AuthorityObject, parent: AuthorityObject, parent_sig_ok: bool, child_sig_ok: bool) -> Seq<Seq<char>> {
    authorization_violations(child, parent, parent_sig_ok, child_sig_ok)
        + scope_violations(child, parent, parent_sig_ok, child_sig_ok)
        + window_violations(child, parent, parent_sig_ok, child_sig_ok)
        + revocation_violations(child, parent, parent_sig_ok, child_sig_ok)
}

/// The child's grant surface lies within the parent's: same capability and currency, a
/// resource within the parent's, limits, window, use budget and revocation freshness no
/// wider, human confirmation kept, a strictly smaller delegation depth, and the same
/// revocation.
pub open spec fn narrows(child: AuthorityObject, parent: AuthorityObject) -> bool {
    &&& child.capability@ == parent.capability@
    &&& within(child.resource@, parent.resource@)
    &&& same_option(child.scope.currency, parent.scope.currency)
    &&& child.scope.max_per_action_minor <= parent.scope.max_per_action_minor
    &&& child.scope.max_total_minor <= parent.scope.max_total_minor
    &&& child.constraints.not_before >= parent.constraints.not_before
    &&& child.constraints.expires <= parent.constraints.expires
    &&& child.constraints.max_uses <= parent.constraints.max_uses
    &&& (parent.constraints.require_human_confirmation ==> child.constraints.require_human_confirmation)
    &&& child.delegation.max_depth < parent.delegation.max_depth
    &&& child.revocation.method@ == parent.revocation.method@
    &&& child.revocation.id@ == parent.revocation.id@
    &&& child.revocation.freshness_required_sec <= parent.revocation.freshness_required_sec
}

/// A delegation is acceptable: both signatures hold, the parent permits delegation with depth
/// left, the child is issued by the parent's bound subject key, and the child only narrows.
pub open spec fn attenuates(child: AuthorityObject, parent: AuthorityObject, parent_sig_ok: bool, child_sig_ok: bool) -> bool {
    &&& parent_sig_ok
    &&& child_sig_ok
    &&& parent.delegation.allowed
    &&& parent.delegation.max_depth > 0
    &&& child.issuer@ == parent.subject@
    &&& child.issuer_pub@ == parent.subject_pub@
    &&& narrows(child, parent)
}

fn options_same(x: &Option<String>, y: &Option<String>) -> (r: bool)
    ensures
        r == same_option(*x, *y),
{
    match (x, y) {
        (None, None) => true,
        (Some(p), Some(q)) => *p == *q,
        _ => false,
    }
}

fn push_if(v: &mut Vec<String>, violated: bool, msg: &str)
    ensures
        string_views(final(v)@) == string_views(old(v)@) + note(violated, msg@),
{
    if violated {
        v.push(owned(msg));
        assert(string_views(v@) =~= string_views(old(v)@) + note(violated, msg@));
    } else {
        assert(string_views(v@) =~= string_views(old(v)@) + note(violated, msg@));
    }
}

fn push_authorization_violations(v: &mut Vec<String>, child: &AuthorityObject, parent: &AuthorityObject, parent_sig_ok: bool, child_sig_ok: bool)
    ensures
        string_views(final(v)@) == string_views(old(v)@) + authorization_violations(*child, *parent, parent_sig_ok, child_sig_ok),
{
    let ghost start = string_views(v@);
    push_if(v, !parent_sig_ok, "parent signature is invalid");
    push_if(v, !child_sig_ok, "child signature is invalid");
    push_if(v, !parent.delegation.allowed, "parent does not permit delegation");
    push_if(v, parent.delegation.max_depth == 0, "parent delegation depth is exhausted");
    push_if(v, child.issuer != parent.subject || child.issuer_pub != parent.subject_pub, "child must be issued by the parent's bound subject key");
    assert(string_views(v@) =~= start + authorization_violations(*child, *parent, parent_sig_ok, child_sig_ok));
}

fn push_scope_violations(v: &mut Vec<String>, child: &AuthorityObject, parent: &AuthorityObject, parent_sig_ok: bool, child_sig_ok: bool)
    ensures
        string_views(final(v)@) == string_views(old(v)@) + scope_violations(*child, *parent, parent_sig_ok, child_sig_ok),
{
    let ghost start = string_views(v@);
    push_if(v, child.capability != parent.capability, "capability differs from parent");
    push_if(v, !resource_within(child.resource.as_str(), parent.resource.as_str()), "resource is not within parent");
    push_if(v, !options_same(&child.scope.currency, &parent.scope.currency), "currency differs from parent");
    push_if(v, child.scope.max_per_action_minor > parent.scope.max_per_action_minor, "per-action limit exceeds parent");
    push_if(v, child.scope.max_total_minor > parent.scope.max_total_minor, "total limit exceeds parent");
    assert(string_views(v@) =~= start + scope_violations(*child, *parent, parent_sig_ok, child_sig_ok));
}

fn push_window_violations(v: &mut Vec<String>, child: &AuthorityObject, parent: &AuthorityObject, parent_sig_ok: bool, child_sig_ok: bool)
    ensures
        string_views(final(v)@) == string_views(old(v)@) + window_violations(*child, *parent, parent_sig_ok, child_sig_ok),
{
    let ghost start = string_views(v@);
    push_if(v, child.constraints.not_before < parent.constraints.not_before, "child starts before parent");
    push_if(v, child.constraints.expires > parent.constraints.expires, "child expires after parent");
    push_if(v, child.constraints.max_uses > parent.constraints.max_uses, "child use budget exceeds parent");
    push_if(v, parent.constraints.require_human_confirmation && !child.constraints.require_human_confirmation, "child removes required human confirmation");
    assert(string_views(v@) =~= start + window_violations(*child, *parent, parent_sig_ok, child_sig_ok));
}

fn push_revocation_violations(v: &mut Vec<String>, child: &AuthorityObject, parent: &AuthorityObject, parent_sig_ok: bool, child_sig_ok: bool)
    ensures
        string_views(final(v)@) == string_views(old(v)@) + revocation_violations(*child, *parent, parent_sig_ok, child_sig_ok),
{
    let ghost start = string_views(v@);
    push_if(v, child.delegation.max_depth >= parent.delegation.max_depth, "delegation depth is not narrower");
    push_if(v, child.revocation.method != parent.revocation.method || child.revocation.id != parent.revocation.id, "child must preserve parent revocation");
    push_if(v, child.revocation.freshness_required_sec > parent.revocation.freshness_required_sec, "child permits staler revocation state");
    assert(string_views(v@) =~= start + revocation_violations(*child, *parent, parent_sig_ok, child_sig_ok));
}

/// A delegation breaks no rule exactly when it is acceptable.
proof fn lemma_no_violations(child: AuthorityObject, parent: AuthorityObject, parent_sig_ok: bool, child_sig_ok: bool)
    ensures
        (violations(child, parent, parent_sig_ok, child_sig_ok).len() == 0) == attenuates(
            child,
            parent,
            parent_sig_ok,
            child_sig_ok,
        ),
{
}

/// Lists the rules a delegation breaks, given whether the parent's and the child's
/// signatures are valid; it is acceptable when none is broken.
pub fn attenuation_violations(child: &AuthorityObject, parent: &AuthorityObject, parent_sig_ok: bool, child_sig_ok: bool) -> (r: AttenuationResult)
    ensures
        string_views(r.violations@) == violations(*child, *parent, parent_sig_ok, child_sig_ok),
        r.ok == (r.violations@.len() == 0),
        r.ok == attenuates(*child, *parent, parent_sig_ok, child_sig_ok),
{
    let mut v: Vec<String> = Vec::new();
    assert(string_views(v@) =~= Seq::<Seq<char>>::empty());
    push_authorization_violations(&mut v, child, parent, parent_sig_ok, child_sig_ok);
    push_scope_violations(&mut v, child, parent, parent_sig_ok, child_sig_ok);
    push_window_violations(&mut v, child, parent, parent_sig_ok, child_sig_ok);
    push_revocation_violations(&mut v, child, parent, parent_sig_ok, child_sig_ok);
    proof {
        lemma_no_violations(*child, *parent, parent_sig_ok, child_sig_ok);
        let g1 = authorization_violations(*child, *parent, parent_sig_ok, child_sig_ok);
        let g2 = scope_violations(*child, *parent, parent_sig_ok, child_sig_ok);
        let g3 = window_violations(*child, *parent, parent_sig_ok, child_sig_ok);
        let g4 = revocation_violations(*child, *parent, parent_sig_ok, child_sig_ok);
        assert(string_views(v@) =~= g1 + g2 + g3 + g4);
    }
    let ok = v.len() == 0;
    AttenuationResult { ok, violations: v }
}

/// Checks that `child` only narrows `parent` and lists every rule it breaks.
pub fn check_attenuation(child: &AuthorityObject, parent: &AuthorityObject) -> (r: AttenuationResult)
    ensures
        string_views(r.violations@) == violations(
            *child,
            *parent,
            signature_valid(authority_text(*parent), parent.issuer_pub@, parent.sig@),
            signature_valid(authority_text(*child), child.issuer_pub@, child.sig@),
        ),
        r.ok == attenuates(
            *child,
            *parent,
            signature_valid(authority_text(*parent), parent.issuer_pub@, parent.sig@),
            signature_valid(authority_text(*child), child.issuer_pub@, child.sig@),
        ),
{
    let parent_ok = verify_sig(canonical_authority(parent).as_str(), parent.issuer_pub.as_str(), parent.sig.as_str());
    let child_ok = verify_sig(canonical_authority(child).as_str(), child.issuer_pub.as_str(), child.sig.as_str());
    attenuation_violations(child, parent, parent_ok, child_ok)
}

/// Narrowing composes: along a chain of delegations every grant lies within each ancestor.
pub proof fn lemma_narrows_transitive(grandchild: AuthorityObject, child: AuthorityObject, parent: AuthorityObject)
    requires
        narrows(grandchild, child),
        narrows(child, parent),
    ensures
        narrows(grandchild, parent),
{
    lemma_within_transitive(grandchild.resource@, child.resource@, parent.resource@);
}

/// Every widening is reported: whenever the child breaks a rule, the violations name that
/// rule, so the delegation is refused.
pub proof fn lemma_widening_reported(child: AuthorityObject, parent: AuthorityObject, parent_sig_ok: bool, child_sig_ok: bool)
    ensures
        ({
            let v = violations(child, parent, parent_sig_ok, child_sig_ok);
            &&& !parent_sig_ok ==> v.contains("parent signature is invalid"@)
            &&& !child_sig_ok ==> v.contains("child signature is invalid"@)
            &&& !parent.delegation.allowed ==> v.contains("parent does not permit delegation"@)
            &&& parent.delegation.max_depth == 0 ==> v.contains(
                "parent delegation depth is exhausted"@,
            )
            &&& child.issuer@ != parent.subject@ || child.issuer_pub@ != parent.subject_pub@
                ==> v.contains("child must be issued by the parent's bound subject key"@)
            &&& child.capability@ != parent.capability@ ==> v.contains(
                "capability differs from parent"@,
            )
            &&& !within(child.resource@, parent.resource@) ==> v.contains(
                "resource is not within parent"@,
            )
            &&& !(child.scope.currency == None::<String> && parent.scope.currency == None::<String>)
                && !(child.scope.currency matches Some(c) && parent.scope.currency matches Some(p)
                && c@ == p@) ==> v.contains("currency differs from parent"@)
            &&& child.scope.max_per_action_minor > parent.scope.max_per_action_minor ==> v.contains(
                "per-action limit exceeds parent"@,
            )
            &&& child.scope.max_total_minor > parent.scope.max_total_minor ==> v.contains(
                "total limit exceeds parent"@,
            )
            &&& child.constraints.not_before < parent.constraints.not_before ==> v.contains(
                "child starts before parent"@,
            )
            &&& child.constraints.expires > parent.constraints.expires ==> v.contains(
                "child expires after parent"@,
            )
            &&& child.constraints.max_uses > parent.constraints.max_uses ==> v.contains(
                "child use budget exceeds parent"@,
            )
            &&& parent.constraints.require_human_confirmation
                && !child.constraints.require_human_confirmation ==> v.contains(
                "child removes required human confirmation"@,
            )
            &&& child.delegation.max_depth >= parent.delegation.max_depth ==> v.contains(
                "delegation depth is not narrower"@,
            )
            &&& child.revocation.method@ != parent.revocation.method@ || child.revocation.id@
                != parent.revocation.id@ ==> v.contains("child must preserve parent revocation"@)
            &&& child.revocation.freshness_required_sec > parent.revocation.freshness_required_sec
                ==> v.contains("child permits staler revocation state"@)
            &&& v.len() > 0 ==> !attenuates(child, parent, parent_sig_ok, child_sig_ok)
        }),
{
    broadcast use vstd::seq_lib::lemma_seq_concat_contains_all_elements;

    assert forall|b: bool, m: Seq<char>| b implies #[trigger] note(b, m).contains(m) by {
        assert(note(b, m)[0] == m);
    }
    lemma_no_violations(child, parent, parent_sig_ok, child_sig_ok);
}

/// An accepted delegation only narrows: both signatures hold, the parent permits delegation
/// with depth left, the child is issued by the parent's subject key, and each of the child's
/// limits lies within the parent's.
pub proof fn lemma_accepted_delegation_narrows(child: AuthorityObject, parent: AuthorityObject, parent_sig_ok: bool, child_sig_ok: bool)
    requires
        attenuates(child, parent, parent_sig_ok, child_sig_ok),
    ensures
        parent_sig_ok,
        child_sig_ok,
        parent.delegation.allowed,
        parent.delegation.max_depth > 0,
        child.issuer@ == parent.subject@,
        child.issuer_pub@ == parent.subject_pub@,
        child.capability@ == parent.capability@,
        within(child.resource@, parent.resource@),
        child.scope.currency is Some <==> parent.scope.currency is Some,
        child.scope.currency matches Some(c) ==> parent.scope.currency matches Some(p) && c@ == p@,
        child.scope.max_per_action_minor <= parent.scope.max_per_action_minor,
        child.scope.max_total_minor <= parent.scope.max_total_minor,
        parent.constraints.not_before <= child.constraints.not_before,
        child.constraints.expires <= parent.constraints.expires,
        child.constraints.max_uses <= parent.constraints.max_uses,
        parent.constraints.require_human_confirmation ==> child.constraints.require_human_confirmation,
        child.delegation.max_depth < parent.delegation.max_depth,
        child.revocation.method@ == parent.revocation.method@,
        child.revocation.id@ == parent.revocation.id@,
        child.revocation.freshness_required_sec <= parent.revocation.freshness_required_sec,
        violations(child, parent, parent_sig_ok, child_sig_ok).len() == 0,
{
    lemma_no_violations(child, parent, parent_sig_ok, child_sig_ok);
}

/// A delegation that meets every rule is accepted with no violation: both signatures hold,
/// the parent permits delegation with depth left, the child is issued by the parent's
/// subject key, and each of the child's limits lies within the parent's.
pub proof fn lemma_narrowing_delegation_accepted(child: AuthorityObject, parent: AuthorityObject, parent_sig_ok: bool, child_sig_ok: bool)
    requires
        parent_sig_ok,
        child_sig_ok,
        parent.delegation.allowed,
        parent.delegation.max_depth > 0,
        child.issuer@ == parent.subject@,
        child.issuer_pub@ == parent.subject_pub@,
        child.capability@ == parent.capability@,
        within(child.resource@, parent.resource@),
        child.scope.currency is Some <==> parent.scope.currency is Some,
        child.scope.currency matches Some(c) ==> parent.scope.currency matches Some(p) && c@ == p@,
        child.scope.max_per_action_minor <= parent.scope.max_per_action_minor,
        child.scope.max_total_minor <= parent.scope.max_total_minor,
        parent.constraints.not_before <= child.constraints.not_before,
        child.constraints.expires <= parent.constraints.expires,
        child.constraints.max_uses <= parent.constraints.max_uses,
        parent.constraints.require_human_confirmation ==> child.constraints.require_human_confirmation,
        child.delegation.max_depth < parent.delegation.max_depth,
        child.revocation.method@ == parent.revocation.method@,
        child.revocation.id@ == parent.revocation.id@,
        child.revocation.freshness_required_sec <= parent.revocation.freshness_required_sec,
    ensures
        attenuates(child, parent, parent_sig_ok, child_sig_ok),
        violations(child, parent, parent_sig_ok, child_sig_ok).len() == 0,
{
    lemma_no_violations(child, parent, parent_sig_ok, child_sig_ok);
}

} // verus!
