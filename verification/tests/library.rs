//! Tests of the library's parts on concrete values.

use echo_authority_core::attenuation::attenuation_violations;
use echo_authority_core::crypto::{public_key_b64, sign_b64};
use echo_authority_core::text::{i64_text, u64_text};
use echo_authority_core::{
    authority_id, authorize_and_record, b64, check_attenuation, base64_decode, border_check, canonical_authority,
    canonical_invocation, canonical_receipt, check_grant_use, check_signed_invocation, encode_fields, expand_seed,
    hex_decode, hex_encode, reason_str, receipt_head, record_authorization, resource_within,
    seed_from_hex, sha256_hex, sign_authority, sign_invocation, sign_receipt, verify_sig,
    verify_signed_receipt, AuthorityObject, BorderResult, Constraints, Decision, Delegation,
    Invocation, JsonVerdict, Reason, ReceiptClaims, Revocation, Scope, SeedError, StringMap,
    StringSet, VerifierState, default_clock_skew, default_invocation_age,
};

use ed25519_dalek::{Signer, SigningKey};

const ISSUER_SEED: [u8; 32] = [7u8; 32];
const SUBJECT_SEED: [u8; 32] = [9u8; 32];

fn grant() -> AuthorityObject {
    AuthorityObject {
        issuer: "did:echo:human:1".into(),
        subject: "agent:a".into(),
        capability: "payment.execute".into(),
        resource: "shop/*".into(),
        scope: Scope { currency: Some("EUR".into()), max_per_action_minor: 500, max_total_minor: 900 },
        constraints: Constraints { not_before: 100, expires: 1_000, max_uses: 2, require_human_confirmation: false },
        delegation: Delegation { allowed: false, max_depth: 0 },
        revocation: Revocation { method: "list".into(), id: "rev-1".into(), freshness_required_sec: 10 },
        issuer_pub: String::new(),
        subject_pub: public_key_b64(&SUBJECT_SEED),
        sig: String::new(),
    }
}

fn signed_pair() -> (AuthorityObject, Invocation) {
    let mut a = grant();
    sign_authority(&mut a, &ISSUER_SEED);
    let mut i = Invocation {
        authority_id: authority_id(&a),
        invocation_id: "inv-7".into(),
        subject: "agent:a".into(),
        capability: "payment.execute".into(),
        resource: "shop/item-3".into(),
        amount_minor: 400,
        currency: Some("EUR".into()),
        audience: "gw".into(),
        nonce: "n-1".into(),
        created: 200,
        human_confirmed: false,
        subject_pub: String::new(),
        sig: String::new(),
    };
    sign_invocation(&mut i, &SUBJECT_SEED);
    (a, i)
}

fn state_for(a: &AuthorityObject) -> VerifierState {
    let mut trusted = StringMap::new();
    trusted.insert(a.issuer.clone(), a.issuer_pub.clone());
    VerifierState {
        now: 210,
        audience: "gw".into(),
        online: true,
        revocation_age_sec: 0,
        revoked_ids: StringSet::new(),
        used_nonces: StringSet::new(),
        uses: StringMap::new(),
        spent_total_minor: StringMap::new(),
        offline_limit_minor: 100,
        max_clock_skew_sec: 30,
        max_invocation_age_sec: 300,
        trusted_issuers: trusted,
        previous_receipt_head: None,
    }
}

#[test]
fn base64_known_vectors() {
    assert_eq!(b64(b"hello"), "aGVsbG8=");
    assert_eq!(b64(b"hell"), "aGVsbA==");
    assert_eq!(b64(b"hel"), "aGVs");
    assert_eq!(b64(b""), "");
    assert_eq!(base64_decode("aGVsbG8="), Some(b"hello".to_vec()));
    assert_eq!(base64_decode("aGVsbA=="), Some(b"hell".to_vec()));
}

#[test]
fn base64_decoding_is_lenient_about_padding_but_not_symbols() {
    assert_eq!(base64_decode("aGV=sbG8"), Some(b"hello".to_vec()));
    assert_eq!(base64_decode("aGVsbG8"), Some(b"hello".to_vec()));
    assert_eq!(base64_decode("aGVs bG8="), None);
    assert_eq!(base64_decode("aGVsé"), None);
    assert_eq!(base64_decode("a"), Some(vec![]));
}

#[test]
fn base64_round_trip_law() {
    let bytes: Vec<u8> = (0u8..=255).collect();
    for n in 0..40 {
        assert_eq!(base64_decode(&b64(&bytes[..n])), Some(bytes[..n].to_vec()));
    }
}

#[test]
fn sha256_hex_gives_the_digest() {
    assert_eq!(sha256_hex("abc"), "ba7816bf8f01cfea414140de5dae2223b00361a396177a9cb410ff61f20015ad");
    assert_eq!(sha256_hex(""), "e3b0c44298fc1c149afbf4c8996fb92427ae41e4649b934ca495991b7852b855");
}

#[test]
fn hex_encoding_and_reading() {
    assert_eq!(hex_encode(&[0x00, 0xff, 0x10, 0xab]), "00ff10ab");
    assert_eq!(hex_decode("  00FF10ab\n"), Some(vec![0x00, 0xff, 0x10, 0xab]));
    assert_eq!(hex_decode("abc"), None);
    assert_eq!(hex_decode("zz"), None);
    assert_eq!(hex_decode(""), Some(vec![]));
    let bytes: Vec<u8> = (0u8..=255).collect();
    assert_eq!(hex_decode(&hex_encode(&bytes)), Some(bytes));
}

#[test]
fn decimal_texts() {
    assert_eq!(u64_text(0), "0");
    assert_eq!(u64_text(u64::MAX), "18446744073709551615");
    assert_eq!(i64_text(-42), "-42");
    assert_eq!(i64_text(i64::MIN), "-9223372036854775808");
    assert_eq!(i64_text(i64::MAX), "9223372036854775807");
}

#[test]
fn fields_are_prefixed_by_their_byte_length() {
    let fields = vec!["ab".to_string(), "é\n:".to_string(), String::new()];
    assert_eq!(encode_fields("D", &fields), "D\nv0.2\n2:ab\n4:é\n:\n0:\n");
}

#[test]
fn canonical_authority_exact_text() {
    let mut a = grant();
    a.issuer_pub = "I".into();
    a.subject_pub = "S".into();
    a.constraints.not_before = -5;
    assert_eq!(
        canonical_authority(&a),
        "ECHO-AUTHORITY\nv0.2\n16:did:echo:human:1\n7:agent:a\n15:payment.execute\n6:shop/*\n3:EUR\n3:500\n3:900\n2:-5\n4:1000\n1:2\n5:false\n5:false\n1:0\n4:list\n5:rev-1\n2:10\n1:I\n1:S\n"
    );
}

#[test]
fn canonical_invocation_and_receipt_texts() {
    let (_, i) = signed_pair();
    let text = canonical_invocation(&i);
    assert!(text.starts_with("ECHO-INVOCATION\nv0.2\n"));
    assert!(text.contains("\n3:400\n3:EUR\n2:gw\n3:n-1\n3:200\n5:false\n"));
    let r = ReceiptClaims {
        authority_id: "id".into(), invocation_id: "i".into(), subject: "s".into(),
        capability: "c".into(), resource: "r".into(), amount_minor: 0, currency: None,
        audience: "a".into(), nonce: "n".into(), authorized_at: 9, previous_receipt_head: None,
    };
    assert_eq!(
        canonical_receipt(&r, "g", "k"),
        "ECHO-RECEIPT\nv0.2\n2:id\n1:i\n1:s\n1:c\n1:r\n1:0\n0:\n1:a\n1:n\n1:9\n0:\n1:g\n1:k\n"
    );
    assert_eq!(receipt_head(&r).len(), 64);
    assert_ne!(receipt_head(&r), sha256_hex(&canonical_receipt(&r, "", "")));
}

#[test]
fn resource_containment_cases() {
    assert!(resource_within("shop", "shop"));
    assert!(resource_within("shop/a", "shop/*"));
    assert!(resource_within("shop/*", "shop/*"));
    assert!(!resource_within("shop", "shop/*"));
    assert!(!resource_within("shopping/a", "shop/*"));
    assert!(!resource_within("shop/a\0", "shop/*"));
    assert!(!resource_within("shop/a", "shop/.."));
    assert!(resource_within("shop/", "shop/"));
    assert!(resource_within("shop//x", "shop/"));
}

#[test]
fn resource_containment_is_transitive_on_a_chain() {
    assert!(resource_within("vault/public/report", "vault/public/*"));
    assert!(resource_within("vault/public/*", "vault/*"));
    assert!(resource_within("vault/public/report", "vault/*"));
}

#[test]
fn signed_grant_and_invocation_pass_every_check() {
    let (a, i) = signed_pair();
    assert!(verify_sig(&canonical_authority(&a), &a.issuer_pub, &a.sig));
    assert!(verify_sig(&canonical_invocation(&i), &i.subject_pub, &i.sig));
    let s = state_for(&a);
    let r = border_check(&a, &i, &s);
    assert_eq!(r.decision, Decision::Allow);
    assert_eq!(r.reason, Reason::Okay);
    let claims = r.receipt.unwrap();
    assert_eq!(claims.authorized_at, 210);
    assert_eq!(claims.nonce, "n-1");
    assert_eq!(claims.previous_receipt_head, None);
}

#[test]
fn signature_checks_reject_bad_encodings() {
    let (a, _) = signed_pair();
    let text = canonical_authority(&a);
    assert!(!verify_sig(&text, "not base64!", &a.sig));
    assert!(!verify_sig(&text, "aGVsbG8=", &a.sig));
    assert!(!verify_sig(&text, &a.issuer_pub, "aGVsbG8="));
    assert!(!verify_sig("other text", &a.issuer_pub, &a.sig));
    assert_eq!(sign_b64(&ISSUER_SEED, &text), a.sig);
}

#[test]
fn shape_and_time_denials() {
    let (mut a, i) = signed_pair();
    let s = state_for(&a);
    a.revocation.id = String::new();
    assert_eq!(border_check(&a, &i, &s).reason, Reason::InvalidConstraints);
    let (a, i) = signed_pair();
    let mut s = state_for(&a);
    s.now = 50;
    assert_eq!(border_check(&a, &i, &s).reason, Reason::NotYetValid);
    let (mut a, _) = signed_pair();
    a.sig = b64(&[1u8; 64]);
    let (_, i) = signed_pair();
    assert_eq!(border_check(&a, &i, &state_for(&a)).reason, Reason::BadAuthoritySignature);
}

#[test]
fn human_confirmation_is_required_when_the_grant_says_so() {
    let mut a = grant();
    a.constraints.require_human_confirmation = true;
    sign_authority(&mut a, &ISSUER_SEED);
    let (_, mut i) = signed_pair();
    i.authority_id = authority_id(&a);
    sign_invocation(&mut i, &SUBJECT_SEED);
    let s = state_for(&a);
    assert_eq!(border_check(&a, &i, &s).reason, Reason::HumanConfirmationRequired);
    i.human_confirmed = true;
    sign_invocation(&mut i, &SUBJECT_SEED);
    assert_eq!(border_check(&a, &i, &s).reason, Reason::Okay);
}

#[test]
fn grant_use_checks_with_a_given_id() {
    let (a, i) = signed_pair();
    let s = state_for(&a);
    let r = check_grant_use(&a, &i, &s, &i.authority_id);
    assert_eq!(r.reason, Reason::Okay);
    let r = check_grant_use(&a, &i, &s, "another-id");
    assert_eq!(r.decision, Decision::Deny);
    assert_eq!(r.reason, Reason::AuthorityIdMismatch);
    assert!(r.receipt.is_none());
    let mut i2 = i.clone();
    i2.currency = None;
    assert_eq!(check_grant_use(&a, &i2, &s, &i.authority_id).reason, Reason::CurrencyMismatch);
    let mut i3 = i.clone();
    i3.nonce = String::new();
    assert_eq!(check_grant_use(&a, &i3, &s, &i.authority_id).reason, Reason::NonceReplay);
    let mut s2 = state_for(&a);
    s2.spent_total_minor.insert(i.authority_id.clone(), u64::MAX);
    assert_eq!(check_grant_use(&a, &i, &s2, &i.authority_id).reason, Reason::TotalLimitExceeded);
}

#[test]
fn no_invocation_is_allowed_twice_and_budgets_hold() {
    let (a, i) = signed_pair();
    let mut s = state_for(&a);
    let first = authorize_and_record(&a, &i, &mut s);
    assert_eq!(first.reason, Reason::Okay);
    let head = s.previous_receipt_head.clone().unwrap();
    assert_eq!(head, receipt_head(&first.receipt.unwrap()));
    assert_eq!(authorize_and_record(&a, &i, &mut s).reason, Reason::NonceReplay);
    assert_eq!(s.previous_receipt_head, Some(head.clone()));
    let mut i2 = i.clone();
    i2.nonce = "n-2".into();
    i2.amount_minor = 500;
    sign_invocation(&mut i2, &SUBJECT_SEED);
    let second = authorize_and_record(&a, &i2, &mut s);
    assert_eq!(second.reason, Reason::Okay);
    assert_eq!(second.receipt.unwrap().previous_receipt_head, Some(head));
    assert_eq!(*s.spent_total_minor.get(&i.authority_id).unwrap(), 900);
    assert_eq!(*s.uses.get(&i.authority_id).unwrap(), 2);
    let mut i3 = i.clone();
    i3.nonce = "n-3".into();
    i3.amount_minor = 1;
    sign_invocation(&mut i3, &SUBJECT_SEED);
    assert_eq!(authorize_and_record(&a, &i3, &mut s).reason, Reason::TotalLimitExceeded);
    i3.amount_minor = 0;
    i3.currency = None;
    sign_invocation(&mut i3, &SUBJECT_SEED);
    assert_eq!(authorize_and_record(&a, &i3, &mut s).reason, Reason::MaxUsesExceeded);
    assert_eq!(*s.uses.get(&i.authority_id).unwrap(), 2);
}

#[test]
fn recording_saturates_the_spent_total() {
    let (a, i) = signed_pair();
    let mut s = state_for(&a);
    s.spent_total_minor.insert(i.authority_id.clone(), u64::MAX - 1);
    record_authorization(&mut s, &i, "head".into());
    assert_eq!(*s.spent_total_minor.get(&i.authority_id).unwrap(), u64::MAX);
    assert_eq!(*s.uses.get(&i.authority_id).unwrap(), 1);
    assert!(s.used_nonces.contains("n-1"));
    assert_eq!(s.previous_receipt_head, Some("head".to_string()));
}

#[test]
fn signed_receipts_verify_against_the_pinned_key() {
    let (a, i) = signed_pair();
    let claims = border_check(&a, &i, &state_for(&a)).receipt.unwrap();
    let receipt = sign_receipt(claims, "gw:1", &[3u8; 32]);
    assert_eq!(receipt.gateway_pub, public_key_b64(&[3u8; 32]));
    let mut pinned = StringMap::new();
    pinned.insert("gw:1".to_string(), receipt.gateway_pub.clone());
    assert!(verify_signed_receipt(&receipt, &pinned));
    let empty: StringMap<String> = StringMap::new();
    assert!(!verify_signed_receipt(&receipt, &empty));
}

#[test]
fn attenuation_lists_each_broken_rule_in_order() {
    let parent = grant();
    let mut child = grant();
    let r = attenuation_violations(&child, &parent, true, true);
    assert!(!r.ok);
    assert_eq!(
        r.violations,
        vec![
            "parent does not permit delegation",
            "parent delegation depth is exhausted",
            "child must be issued by the parent's bound subject key",
            "delegation depth is not narrower",
        ]
    );
    child.scope.max_total_minor = 901;
    let r = attenuation_violations(&child, &parent, false, true);
    assert_eq!(r.violations[0], "parent signature is invalid");
    assert!(r.violations.contains(&"total limit exceeds parent".to_string()));
}

#[test]
fn reason_codes() {
    assert_eq!(reason_str(Reason::Okay), "OK");
    assert_eq!(reason_str(Reason::NonceReplay), "NONCE_REPLAY");
    assert_eq!(reason_str(Reason::DelegationNotSubset), "DELEGATION_NOT_SUBSET");
    assert_eq!(reason_str(Reason::HumanConfirmationRequired), "HUMAN_CONFIRMATION_REQUIRED");
}

#[test]
fn verdicts_and_defaults() {
    let v = JsonVerdict::malformed();
    assert!(!v.allow);
    assert!(v.json.contains("MALFORMED_REQUEST"));
    let r = BorderResult::deny(Reason::Expired);
    let v = JsonVerdict::for_result(&r, "x".into());
    assert!(!v.allow);
    assert_eq!(v.json, "x");
    assert_eq!(default_clock_skew(), 30);
    assert_eq!(default_invocation_age(), 300);
}

#[test]
fn seeds_from_hex() {
    let hex: String = "0a".repeat(32);
    assert_eq!(seed_from_hex(&hex), Ok(vec![10u8; 32]));
    assert_eq!(seed_from_hex("0a0b"), Err(SeedError::WrongLength(2)));
    assert_eq!(seed_from_hex("xyz"), Err(SeedError::NotHex));
    let seed = expand_seed(&vec![1, 2, 3]);
    assert_eq!(seed.len(), 32);
    assert_eq!(&seed[..6], &[1, 2, 3, 1, 2, 3]);
    assert_eq!(seed[31], 2);
}

#[test]
fn string_collections() {
    let mut s = StringSet::new();
    assert!(s.insert("a".into()));
    assert!(!s.insert("a".into()));
    assert!(s.insert("b".into()));
    assert_eq!(s.len(), 2);
    assert!(s.contains("a") && !s.contains("c"));
    let t = StringSet::from_vec(vec!["x".into(), "y".into(), "x".into()]);
    assert_eq!(t.len(), 2);
    let mut m: StringMap<u64> = StringMap::new();
    m.insert("k".into(), 1);
    m.insert("k".into(), 2);
    assert_eq!(m.get("k"), Some(&2));
    assert!(m.contains_key("k") && !m.contains_key("j"));
}

#[test]
fn keys_and_signatures_match_ed25519() {
    let key = SigningKey::from_bytes(&[7u8; 32]);
    assert_eq!(public_key_b64(&[7u8; 32]), b64(key.verifying_key().as_bytes()));
    assert_eq!(sign_b64(&[7u8; 32], "msg"), b64(&key.sign(b"msg").to_bytes()));
}

#[test]
fn narrowing_composes_along_a_delegation_chain() {
    let mut parent = grant();
    parent.delegation = Delegation { allowed: true, max_depth: 3 };
    parent.subject_pub = public_key_b64(&[2u8; 32]);
    sign_authority(&mut parent, &ISSUER_SEED);
    let mut child = grant();
    child.issuer = parent.subject.clone();
    child.subject = "agent:b".into();
    child.resource = "shop/books/*".into();
    child.scope.max_total_minor = 800;
    child.delegation = Delegation { allowed: true, max_depth: 2 };
    child.subject_pub = public_key_b64(&[4u8; 32]);
    sign_authority(&mut child, &[2u8; 32]);
    let mut grandchild = grant();
    grandchild.issuer = child.subject.clone();
    grandchild.subject = "agent:c".into();
    grandchild.resource = "shop/books/novel".into();
    grandchild.scope.max_total_minor = 700;
    grandchild.delegation = Delegation { allowed: false, max_depth: 1 };
    sign_authority(&mut grandchild, &[4u8; 32]);
    assert!(check_attenuation(&child, &parent).ok);
    assert!(check_attenuation(&grandchild, &child).ok);
    assert!(resource_within(&grandchild.resource, &parent.resource));
    assert!(grandchild.scope.max_total_minor <= parent.scope.max_total_minor);
}

#[test]
fn signed_invocation_checks_with_given_signature_outcomes() {
    let (a, i) = signed_pair();
    let s = state_for(&a);
    let id = authority_id(&a);
    assert_eq!(check_signed_invocation(&a, &i, &s, false, true, &id).reason, Reason::BadAuthoritySignature);
    assert_eq!(check_signed_invocation(&a, &i, &s, true, false, &id).reason, Reason::BadInvocationSignature);
    assert_eq!(check_signed_invocation(&a, &i, &s, true, true, &id).reason, Reason::Okay);
    let mut i2 = i.clone();
    i2.subject_pub = "other".into();
    assert_eq!(check_signed_invocation(&a, &i2, &s, true, true, &id).reason, Reason::SubjectKeyMismatch);
}

#[test]
fn keys_that_are_not_curve_points_are_rejected() {
    let (a, _) = signed_pair();
    let text = canonical_authority(&a);
    let mut rejected = 0;
    for byte in 0u8..=255 {
        let candidate = [byte; 32];
        if ed25519_dalek::VerifyingKey::from_bytes(&candidate).is_err() {
            assert!(!verify_sig(&text, &b64(&candidate), &a.sig));
            rejected += 1;
        }
    }
    assert!(rejected > 0);
}

#[test]
fn identifiers_are_lowercase_hex_of_the_digest() {
    let (a, _) = signed_pair();
    let id = authority_id(&a);
    assert_eq!(id.len(), 64);
    assert!(id.chars().all(|c| c.is_ascii_digit() || ('a'..='f').contains(&c)));
}
