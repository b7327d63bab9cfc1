//! Canonical, length-prefixed signing encodings and the content-derived identifiers.
use vstd::prelude::*;
use vstd::utf8::encode_utf8;
use crate::collections::string_views;
use crate::crypto::{sha256_hex, sha256_hex_text};
use crate::hex::is_lower_hex_digit;
use crate::model::{AuthorityObject, Invocation, ReceiptClaims};
use crate::text::{lemma_decimal_digits, lemma_decimal_injective, lemma_signed_decimal_injective, lemma_encode_utf8_concat, lemma_encode_utf8_len, bool_string, bool_text, decimal, i64_text, owned, push_char, push_decimal, push_str, signed_decimal, u64_text};

verus! {

/// The line that follows the domain in every encoding.
pub open spec fn version_line() -> Seq<char> {
    seq!['\n', 'v', '0', '.', '2', '\n']
}

/// One field: its length in UTF-8 bytes in decimal, a colon, the field, a newline.
pub open spec fn field_item(f: Seq<char>) -> Seq<char> {
    decimal(encode_utf8(f).len()) + seq![':'] + f + seq!['\n']
}

/// The fields, one after the other.
pub open spec fn field_items(fs: Seq<Seq<char>>) -> Seq<char>
    decreases fs.len(),
{
    if fs.len() == 0 {
        Seq::<char>::empty()
    } else {
        field_item(fs[0]) + field_items(fs.drop_first())
    }
}

/// The encoding of `fields` under `domain`.
pub open spec fn encoded(domain: Seq<char>, fields: Seq<Seq<char>>) -> Seq<char> {
    domain + version_line() + field_items(fields)
}

/// The text of an optional string: empty when absent.
pub open spec fn opt_text(v: Option<String>) -> Seq<char> {
    match v {
        Some(s) => s@,
        None => Seq::<char>::empty(),
    }
}

/// The signed fields of a grant, in order.
pub open spec fn authority_fields(a: AuthorityObject) -> Seq<Seq<char>> {
    seq![
        a.issuer@,
        a.subject@,
        a.capability@,
        a.resource@,
        opt_text(a.scope.currency),
        decimal(a.scope.max_per_action_minor as nat),
        decimal(a.scope.max_total_minor as nat),
        signed_decimal(a.constraints.not_before as int),
        signed_decimal(a.constraints.expires as int),
        decimal(a.constraints.max_uses as nat),
        bool_text(a.constraints.require_human_confirmation),
        bool_text(a.delegation.allowed),
        decimal(a.delegation.max_depth as nat),
        a.revocation.method@,
        a.revocation.id@,
        signed_decimal(a.revocation.freshness_required_sec as int),
        a.issuer_pub@,
        a.subject_pub@,
    ]
}

/// The signed fields of an invocation, in order.
pub open spec fn invocation_fields(i: Invocation) -> Seq<Seq<char>> {
    seq![
        i.authority_id@,
        i.invocation_id@,
        i.subject@,
        i.capability@,
        i.resource@,
        decimal(i.amount_minor as nat),
        opt_text(i.currency),
        i.audience@,
        i.nonce@,
        signed_decimal(i.created as int),
        bool_text(i.human_confirmed),
        i.subject_pub@,
    ]
}

/// The signed fields of a receipt, in order, bound to the gateway that signs it.
pub open spec fn receipt_fields(r: ReceiptClaims, gateway_id: Seq<char>, gateway_pub: Seq<char>) -> Seq<
    Seq<char>,
> {
    seq![
        r.authority_id@,
        r.invocation_id@,
        r.subject@,
        r.capability@,
        r.resource@,
        decimal(r.amount_minor as nat),
        opt_text(r.currency),
        r.audience@,
        r.nonce@,
        signed_decimal(r.authorized_at as int),
        opt_text(r.previous_receipt_head),
        gateway_id,
        gateway_pub,
    ]
}

/// The text an issuer signs for a grant.
pub open spec fn authority_text(a: AuthorityObject) -> Seq<char> {
    encoded("ECHO-AUTHORITY"@, authority_fields(a))
}

/// The text a subject signs for an invocation.
pub open spec fn invocation_text(i: Invocation) -> Seq<char> {
    encoded("ECHO-INVOCATION"@, invocation_fields(i))
}

/// The text a gateway signs for a receipt.
pub open spec fn receipt_text(r: ReceiptClaims, gateway_id: Seq<char>, gateway_pub: Seq<char>) -> Seq<
    char,
> {
    encoded("ECHO-RECEIPT"@, receipt_fields(r, gateway_id, gateway_pub))
}

/// The content-derived id of a grant: a hash over its signed text and its signature.
pub open spec fn authority_id_text(a: AuthorityObject) -> Seq<char> {
    sha256_hex_text(encoded("ECHO-AUTHORITY-ID"@, seq![authority_text(a), a.sig@]))
}

/// The head of the receipt chain after a receipt: a hash over its gateway-free text.
pub open spec fn receipt_head_text(r: ReceiptClaims) -> Seq<char> {
    sha256_hex_text(
        encoded("ECHO-RECEIPT-HEAD"@, seq![receipt_text(r, ""@, ""@)]),
    )
}

/// Appending one more field extends the items by that field's item.
proof fn lemma_field_items_push(fs: Seq<Seq<char>>, f: Seq<char>)
    ensures
        field_items(fs.push(f)) == field_items(fs) + field_item(f),
    decreases fs.len(),
{
    if fs.len() == 0 {
        assert(fs.push(f).drop_first() =~= Seq::<Seq<char>>::empty());
        assert(fs =~= Seq::<Seq<char>>::empty());
        assert(field_items(Seq::<Seq<char>>::empty()) =~= Seq::<char>::empty());
        assert(fs.push(f)[0] == f);
        assert(field_items(fs.push(f)) =~= field_items(fs) + field_item(f));
    } else {
        assert(fs.push(f).drop_first() =~= fs.drop_first().push(f));
        assert(fs.push(f)[0] == fs[0]);
        lemma_field_items_push(fs.drop_first(), f);
        assert(field_items(fs.push(f)) =~= field_items(fs) + field_item(f));
    }
}

fn push_field(out: &mut String, f: &str)
    ensures
        final(out)@ == old(out)@ + field_item(f@),
{
    push_decimal(out, f.as_bytes().len() as u64);
    push_char(out, ':');
    push_str(out, f);
    push_char(out, '\n');
    assert(final(out)@ =~= old(out)@ + field_item(f@));
}

/// Length-prefixes each field so that separators inside user-controlled strings stay
/// unambiguous.
pub fn encode_fields(domain: &str, fields: &[String]) -> (r: String)
    ensures
        r@ == encoded(domain@, string_views(fields@)),
{
    let mut out = String::new();
    push_str(&mut out, domain);
    push_char(&mut out, '\n');
    push_char(&mut out, 'v');
    push_char(&mut out, '0');
    push_char(&mut out, '.');
    push_char(&mut out, '2');
    push_char(&mut out, '\n');
    let ghost views = string_views(fields@);
    assert(views.take(0) =~= Seq::<Seq<char>>::empty());
    assert(out@ =~= domain@ + version_line() + field_items(views.take(0)));
    let mut i: usize = 0;
    while i < fields.len()
        invariant
            i <= fields@.len(),
            views == string_views(fields@),
            out@ == domain@ + version_line() + field_items(views.take(i as int)),
        decreases fields@.len() - i,
    {
        push_field(&mut out, fields[i].as_str());
        proof {
            assert(views.take(i + 1) =~= views.take(i as int).push(fields@[i as int]@));
            lemma_field_items_push(views.take(i as int), fields@[i as int]@);
        }
        i = i + 1;
    }
    assert(views.take(fields@.len() as int) =~= views);
    out
}

/// The text of an optional string: empty when absent.
pub fn opt(value: &Option<String>) -> (r: String)
    ensures
        r@ == opt_text(*value),
{
    match value {
        Some(s) => s.clone(),
        None => String::new(),
    }
}

/// The text an issuer signs for a grant.
pub fn canonical_authority(a: &AuthorityObject) -> (r: String)
    ensures
        r@ == authority_text(*a),
{
    let mut f: Vec<String> = Vec::new();
    f.push(a.issuer.clone());
    f.push(a.subject.clone());
    f.push(a.capability.clone());
    f.push(a.resource.clone());
    f.push(opt(&a.scope.currency));
    f.push(u64_text(a.scope.max_per_action_minor));
    f.push(u64_text(a.scope.max_total_minor));
    f.push(i64_text(a.constraints.not_before));
    f.push(i64_text(a.constraints.expires));
    f.push(u64_text(a.constraints.max_uses));
    f.push(bool_string(a.constraints.require_human_confirmation));
    f.push(bool_string(a.delegation.allowed));
    f.push(u64_text(a.delegation.max_depth as u64));
    f.push(a.revocation.method.clone());
    f.push(a.revocation.id.clone());
    f.push(i64_text(a.revocation.freshness_required_sec));
    f.push(a.issuer_pub.clone());
    f.push(a.subject_pub.clone());
    assert(string_views(f@) =~= authority_fields(*a));
    encode_fields("ECHO-AUTHORITY", f.as_slice())
}

/// The text a subject signs for an invocation.
pub fn canonical_invocation(i: &Invocation) -> (r: String)
    ensures
        r@ == invocation_text(*i),
{
    let mut f: Vec<String> = Vec::new();
    f.push(i.authority_id.clone());
    f.push(i.invocation_id.clone());
    f.push(i.subject.clone());
    f.push(i.capability.clone());
    f.push(i.resource.clone());
    f.push(u64_text(i.amount_minor));
    f.push(opt(&i.currency));
    f.push(i.audience.clone());
    f.push(i.nonce.clone());
    f.push(i64_text(i.created));
    f.push(bool_string(i.human_confirmed));
    f.push(i.subject_pub.clone());
    assert(string_views(f@) =~= invocation_fields(*i));
    encode_fields("ECHO-INVOCATION", f.as_slice())
}

/// The text a gateway signs for a receipt.
pub fn canonical_receipt(r: &ReceiptClaims, gateway_id: &str, gateway_pub: &str) -> (t: String)
    ensures
        t@ == receipt_text(*r, gateway_id@, gateway_pub@),
{
    let mut f: Vec<String> = Vec::new();
    f.push(r.authority_id.clone());
    f.push(r.invocation_id.clone());
    f.push(r.subject.clone());
    f.push(r.capability.clone());
    f.push(r.resource.clone());
    f.push(u64_text(r.amount_minor));
    f.push(opt(&r.currency));
    f.push(r.audience.clone());
    f.push(r.nonce.clone());
    f.push(i64_text(r.authorized_at));
    f.push(opt(&r.previous_receipt_head));
    f.push(owned(gateway_id));
    f.push(owned(gateway_pub));
    assert(string_views(f@) =~= receipt_fields(*r, gateway_id@, gateway_pub@));
    encode_fields("ECHO-RECEIPT", f.as_slice())
}

/// The content-derived id of a grant.
pub fn authority_id(a: &AuthorityObject) -> (r: String)
    ensures
        r@ == authority_id_text(*a),
        r@.len() == 64,
        forall|k: int| 0 <= k < r@.len() ==> is_lower_hex_digit(#[trigger] r@[k]),
{
    let mut f: Vec<String> = Vec::new();
    f.push(canonical_authority(a));
    f.push(a.sig.clone());
    let ghost expected: Seq<Seq<char>> = seq![authority_text(*a), a.sig@];
    assert(string_views(f@) =~= expected);
    let text = encode_fields("ECHO-AUTHORITY-ID", f.as_slice());
    sha256_hex(text.as_str())
}

/// The head of the receipt chain after `r`.
pub fn receipt_head(r: &ReceiptClaims) -> (h: String)
    ensures
        h@ == receipt_head_text(*r),
        h@.len() == 64,
        forall|k: int| 0 <= k < h@.len() ==> is_lower_hex_digit(#[trigger] h@[k]),
{
    let mut f: Vec<String> = Vec::new();
    f.push(canonical_receipt(r, "", ""));
    let ghost expected: Seq<Seq<char>> = seq![receipt_text(*r, ""@, ""@)];
    assert(string_views(f@) =~= expected);
    let text = encode_fields("ECHO-RECEIPT-HEAD", f.as_slice());
    sha256_hex(text.as_str())
}

/// The parts of an item followed by more text, found by position.
proof fn lemma_item_parts(f: Seq<char>, rest: Seq<char>)
    ensures
        ({
            let d = decimal(encode_utf8(f).len());
            let s = field_item(f) + rest;
            &&& s.len() == d.len() + 1 + f.len() + 1 + rest.len()
            &&& s.take(d.len() as int) == d
            &&& s[d.len() as int] == ':'
            &&& s.subrange(d.len() as int + 1, d.len() as int + 1 + f.len() as int) == f
            &&& s.skip(d.len() as int + 1 + f.len() as int + 1) == rest
        }),
{
    let d = decimal(encode_utf8(f).len());
    let s = field_item(f) + rest;
    assert(s.take(d.len() as int) =~= d);
    assert(s.subrange(d.len() as int + 1, d.len() as int + 1 + f.len() as int) =~= f);
    assert(s.skip(d.len() as int + 1 + f.len() as int + 1) =~= rest);
}

/// Two field lists with the same items are the same list.
proof fn lemma_items_injective(fs1: Seq<Seq<char>>, fs2: Seq<Seq<char>>)
    requires
        field_items(fs1) == field_items(fs2),
    ensures
        fs1 == fs2,
    decreases fs1.len(),
{
    if fs1.len() == 0 && fs2.len() == 0 {
        assert(fs1 =~= fs2);
    } else if fs1.len() == 0 {
        lemma_item_parts(fs2[0], field_items(fs2.drop_first()));
    } else if fs2.len() == 0 {
        lemma_item_parts(fs1[0], field_items(fs1.drop_first()));
    } else {
        let f1 = fs1[0];
        let f2 = fs2[0];
        let r1 = field_items(fs1.drop_first());
        let r2 = field_items(fs2.drop_first());
        let s = field_items(fs1);
        lemma_item_parts(f1, r1);
        lemma_item_parts(f2, r2);
        let n1 = encode_utf8(f1).len();
        let n2 = encode_utf8(f2).len();
        let d1 = decimal(n1);
        let d2 = decimal(n2);
        lemma_decimal_digits(n1);
        lemma_decimal_digits(n2);
        if d1.len() < d2.len() {
            assert(s[d1.len() as int] == ':');
            assert(s.take(d2.len() as int)[d1.len() as int] == d2[d1.len() as int]);
            assert(false);
        } else if d2.len() < d1.len() {
            assert(s[d2.len() as int] == ':');
            assert(s.take(d1.len() as int)[d2.len() as int] == d1[d2.len() as int]);
            assert(false);
        }
        assert(d1 == d2);
        lemma_decimal_injective(n1, n2);
        let p: int = d1.len() as int + 1;
        if f1.len() != f2.len() {
            let (short, long) = if f1.len() < f2.len() { (f1, f2) } else { (f2, f1) };
            assert(long.take(short.len() as int) =~= short) by {
                assert forall|k: int| 0 <= k < short.len() implies long[k] == short[k] by {
                    assert(s.subrange(p, p + short.len() as int)[k] == s[p + k]);
                    assert(s.subrange(p, p + long.len() as int)[k] == s[p + k]);
                }
            }
            let g = long.skip(short.len() as int);
            assert(long =~= short + g);
            lemma_encode_utf8_concat(short, g);
            lemma_encode_utf8_len(g);
            assert(false);
        }
        assert(f1 =~= f2) by {
            assert forall|k: int| 0 <= k < f1.len() implies f1[k] == f2[k] by {
                assert(s.subrange(p, p + f1.len() as int)[k] == s[p + k]);
            }
        }
        assert(r1 == r2);
        lemma_items_injective(fs1.drop_first(), fs2.drop_first());
        assert(fs1 =~= fs2) by {
            assert(fs1 =~= seq![f1] + fs1.drop_first());
            assert(fs2 =~= seq![f2] + fs2.drop_first());
        }
    }
}

/// Length-prefixing makes the encoding unambiguous: under one domain, equal encodings come
/// from equal field lists, whatever separators the fields hold.
pub proof fn lemma_encoding_injective(domain: Seq<char>, fs1: Seq<Seq<char>>, fs2: Seq<Seq<char>>)
    requires
        encoded(domain, fs1) == encoded(domain, fs2),
    ensures
        fs1 == fs2,
{
    let h = domain + version_line();
    assert(encoded(domain, fs1).skip(h.len() as int) =~= field_items(fs1));
    assert(encoded(domain, fs2).skip(h.len() as int) =~= field_items(fs2));
    lemma_items_injective(fs1, fs2);
}

/// The signed text of a grant determines every signed field (an absent currency and an empty
/// one are written alike).
pub proof fn lemma_authority_text_injective(a: AuthorityObject, b: AuthorityObject)
    requires
        authority_text(a) == authority_text(b),
    ensures
        a.issuer@ == b.issuer@,
        a.subject@ == b.subject@,
        a.capability@ == b.capability@,
        a.resource@ == b.resource@,
        opt_text(a.scope.currency) == opt_text(b.scope.currency),
        a.scope.max_per_action_minor == b.scope.max_per_action_minor,
        a.scope.max_total_minor == b.scope.max_total_minor,
        a.constraints.not_before == b.constraints.not_before,
        a.constraints.expires == b.constraints.expires,
        a.constraints.max_uses == b.constraints.max_uses,
        a.constraints.require_human_confirmation == b.constraints.require_human_confirmation,
        a.delegation.allowed == b.delegation.allowed,
        a.delegation.max_depth == b.delegation.max_depth,
        a.revocation.method@ == b.revocation.method@,
        a.revocation.id@ == b.revocation.id@,
        a.revocation.freshness_required_sec == b.revocation.freshness_required_sec,
        a.issuer_pub@ == b.issuer_pub@,
        a.subject_pub@ == b.subject_pub@,
{
    lemma_encoding_injective("ECHO-AUTHORITY"@, authority_fields(a), authority_fields(b));
    let fa = authority_fields(a);
    let fb = authority_fields(b);
    assert(fa[5] == fb[5] && fa[6] == fb[6] && fa[9] == fb[9] && fa[12] == fb[12]);
    lemma_decimal_injective(a.scope.max_per_action_minor as nat, b.scope.max_per_action_minor as nat);
    lemma_decimal_injective(a.scope.max_total_minor as nat, b.scope.max_total_minor as nat);
    lemma_decimal_injective(a.constraints.max_uses as nat, b.constraints.max_uses as nat);
    lemma_decimal_injective(a.delegation.max_depth as nat, b.delegation.max_depth as nat);
    assert(fa[7] == fb[7] && fa[8] == fb[8] && fa[15] == fb[15]);
    lemma_signed_decimal_injective(a.constraints.not_before as int, b.constraints.not_before as int);
    lemma_signed_decimal_injective(a.constraints.expires as int, b.constraints.expires as int);
    lemma_signed_decimal_injective(
        a.revocation.freshness_required_sec as int,
        b.revocation.freshness_required_sec as int,
    );
    assert(fa[10] == fb[10] && fa[11] == fb[11]);
    if a.constraints.require_human_confirmation != b.constraints.require_human_confirmation {
        assert(bool_text(true).len() != bool_text(false).len());
    }
    if a.delegation.allowed != b.delegation.allowed {
        assert(bool_text(true).len() != bool_text(false).len());
    }
    assert(fa[0] == fb[0] && fa[1] == fb[1] && fa[2] == fb[2] && fa[3] == fb[3] && fa[4] == fb[4]);
    assert(fa[13] == fb[13] && fa[14] == fb[14] && fa[16] == fb[16] && fa[17] == fb[17]);
}

/// The signed text of an invocation determines every signed field (an absent currency and an
/// empty one are written alike), so the human-confirmation flag and the amount are covered
/// by the subject's signature.
pub proof fn lemma_invocation_text_injective(i: Invocation, j: Invocation)
    requires
        invocation_text(i) == invocation_text(j),
    ensures
        i.authority_id@ == j.authority_id@,
        i.invocation_id@ == j.invocation_id@,
        i.subject@ == j.subject@,
        i.capability@ == j.capability@,
        i.resource@ == j.resource@,
        i.amount_minor == j.amount_minor,
        opt_text(i.currency) == opt_text(j.currency),
        i.audience@ == j.audience@,
        i.nonce@ == j.nonce@,
        i.created == j.created,
        i.human_confirmed == j.human_confirmed,
        i.subject_pub@ == j.subject_pub@,
{
    lemma_encoding_injective("ECHO-INVOCATION"@, invocation_fields(i), invocation_fields(j));
    let fi = invocation_fields(i);
    let fj = invocation_fields(j);
    assert(fi[5] == fj[5] && fi[9] == fj[9] && fi[10] == fj[10]);
    lemma_decimal_injective(i.amount_minor as nat, j.amount_minor as nat);
    lemma_signed_decimal_injective(i.created as int, j.created as int);
    if i.human_confirmed != j.human_confirmed {
        assert(bool_text(true).len() != bool_text(false).len());
    }
    assert(fi[0] == fj[0] && fi[1] == fj[1] && fi[2] == fj[2] && fi[3] == fj[3] && fi[4] == fj[4]);
    assert(fi[6] == fj[6] && fi[7] == fj[7] && fi[8] == fj[8] && fi[11] == fj[11]);
}

/// Encoding no fields gives the domain and the version line.
proof fn lemma_encoded_empty(domain: Seq<char>)
    ensures
        encoded(domain, Seq::<Seq<char>>::empty()) == domain + version_line(),
{
    assert(field_items(Seq::<Seq<char>>::empty()) =~= Seq::<char>::empty());
    assert(domain + version_line() + Seq::<char>::empty() =~= domain + version_line());
}

/// Encoding one more field appends that field's item.
proof fn lemma_encoded_push(domain: Seq<char>, fs: Seq<Seq<char>>, f: Seq<char>)
    ensures
        encoded(domain, fs.push(f)) == encoded(domain, fs) + field_item(f),
{
    lemma_field_items_push(fs, f);
    assert(domain + version_line() + (field_items(fs) + field_item(f)) =~= domain
        + version_line() + field_items(fs) + field_item(f));
}

/// The signed text of an invocation is the domain `ECHO-INVOCATION`, the version line, then
/// one length-prefixed item per field in the protocol's order: authority id, invocation id,
/// subject, capability, resource, amount, currency, audience, nonce, creation time, human
/// confirmation, subject key. In particular the authority id is the first item after the
/// version line.
pub proof fn lemma_invocation_text_layout(i: Invocation)
    ensures
        invocation_text(i) == "ECHO-INVOCATION"@ + version_line() + field_item(i.authority_id@)
            + field_item(i.invocation_id@) + field_item(i.subject@) + field_item(i.capability@)
            + field_item(i.resource@) + field_item(decimal(i.amount_minor as nat))
            + field_item(opt_text(i.currency)) + field_item(i.audience@) + field_item(i.nonce@)
            + field_item(signed_decimal(i.created as int)) + field_item(bool_text(i.human_confirmed))
            + field_item(i.subject_pub@),
        invocation_text(i).take(
            ("ECHO-INVOCATION"@ + version_line() + field_item(i.authority_id@)).len() as int,
        ) == "ECHO-INVOCATION"@ + version_line() + field_item(i.authority_id@),
{
    let d = "ECHO-INVOCATION"@;
    let s0 = Seq::<Seq<char>>::empty();
    let s1 = s0.push(i.authority_id@);
    let s2 = s1.push(i.invocation_id@);
    let s3 = s2.push(i.subject@);
    let s4 = s3.push(i.capability@);
    let s5 = s4.push(i.resource@);
    let s6 = s5.push(decimal(i.amount_minor as nat));
    let s7 = s6.push(opt_text(i.currency));
    let s8 = s7.push(i.audience@);
    let s9 = s8.push(i.nonce@);
    let s10 = s9.push(signed_decimal(i.created as int));
    let s11 = s10.push(bool_text(i.human_confirmed));
    let s12 = s11.push(i.subject_pub@);
    assert(invocation_fields(i) =~= s12);
    lemma_encoded_empty(d);
    lemma_encoded_push(d, s0, i.authority_id@);
    lemma_encoded_push(d, s1, i.invocation_id@);
    lemma_encoded_push(d, s2, i.subject@);
    lemma_encoded_push(d, s3, i.capability@);
    lemma_encoded_push(d, s4, i.resource@);
    lemma_encoded_push(d, s5, decimal(i.amount_minor as nat));
    lemma_encoded_push(d, s6, opt_text(i.currency));
    lemma_encoded_push(d, s7, i.audience@);
    lemma_encoded_push(d, s8, i.nonce@);
    lemma_encoded_push(d, s9, signed_decimal(i.created as int));
    lemma_encoded_push(d, s10, bool_text(i.human_confirmed));
    lemma_encoded_push(d, s11, i.subject_pub@);
    let head = d + version_line() + field_item(i.authority_id@);
    let t = invocation_text(i);
    assert(t == head + (t.skip(head.len() as int)));
    assert(t.take(head.len() as int) =~= head);
}

/// The signed text of a grant is the domain `ECHO-AUTHORITY`, the version line, then one
/// length-prefixed item per field in the protocol's order: issuer, subject, capability,
/// resource, currency, per-action limit, total limit, not-before, expiry, use budget, human
/// confirmation, delegation allowed, delegation depth, revocation method, revocation id,
/// revocation freshness, issuer key, subject key.
pub proof fn lemma_authority_text_layout(a: AuthorityObject)
    ensures
        authority_text(a) == "ECHO-AUTHORITY"@ + version_line() + field_item(a.issuer@)
            + field_item(a.subject@) + field_item(a.capability@) + field_item(a.resource@)
            + field_item(opt_text(a.scope.currency))
            + field_item(decimal(a.scope.max_per_action_minor as nat))
            + field_item(decimal(a.scope.max_total_minor as nat))
            + field_item(signed_decimal(a.constraints.not_before as int))
            + field_item(signed_decimal(a.constraints.expires as int))
            + field_item(decimal(a.constraints.max_uses as nat))
            + field_item(bool_text(a.constraints.require_human_confirmation))
            + field_item(bool_text(a.delegation.allowed))
            + field_item(decimal(a.delegation.max_depth as nat))
            + field_item(a.revocation.method@) + field_item(a.revocation.id@)
            + field_item(signed_decimal(a.revocation.freshness_required_sec as int))
            + field_item(a.issuer_pub@) + field_item(a.subject_pub@),
{
    let d = "ECHO-AUTHORITY"@;
    let s0 = Seq::<Seq<char>>::empty();
    let s1 = s0.push(a.issuer@);
    let s2 = s1.push(a.subject@);
    let s3 = s2.push(a.capability@);
    let s4 = s3.push(a.resource@);
    let s5 = s4.push(opt_text(a.scope.currency));
    let s6 = s5.push(decimal(a.scope.max_per_action_minor as nat));
    let s7 = s6.push(decimal(a.scope.max_total_minor as nat));
    let s8 = s7.push(signed_decimal(a.constraints.not_before as int));
    let s9 = s8.push(signed_decimal(a.constraints.expires as int));
    let s10 = s9.push(decimal(a.constraints.max_uses as nat));
    let s11 = s10.push(bool_text(a.constraints.require_human_confirmation));
    let s12 = s11.push(bool_text(a.delegation.allowed));
    let s13 = s12.push(decimal(a.delegation.max_depth as nat));
    let s14 = s13.push(a.revocation.method@);
    let s15 = s14.push(a.revocation.id@);
    let s16 = s15.push(signed_decimal(a.revocation.freshness_required_sec as int));
    let s17 = s16.push(a.issuer_pub@);
    let s18 = s17.push(a.subject_pub@);
    assert(authority_fields(a) =~= s18);
    lemma_encoded_empty(d);
    lemma_encoded_push(d, s0, a.issuer@);
    lemma_encoded_push(d, s1, a.subject@);
    lemma_encoded_push(d, s2, a.capability@);
    lemma_encoded_push(d, s3, a.resource@);
    lemma_encoded_push(d, s4, opt_text(a.scope.currency));
    lemma_encoded_push(d, s5, decimal(a.scope.max_per_action_minor as nat));
    lemma_encoded_push(d, s6, decimal(a.scope.max_total_minor as nat));
    lemma_encoded_push(d, s7, signed_decimal(a.constraints.not_before as int));
    lemma_encoded_push(d, s8, signed_decimal(a.constraints.expires as int));
    lemma_encoded_push(d, s9, decimal(a.constraints.max_uses as nat));
    lemma_encoded_push(d, s10, bool_text(a.constraints.require_human_confirmation));
    lemma_encoded_push(d, s11, bool_text(a.delegation.allowed));
    lemma_encoded_push(d, s12, decimal(a.delegation.max_depth as nat));
    lemma_encoded_push(d, s13, a.revocation.method@);
    lemma_encoded_push(d, s14, a.revocation.id@);
    lemma_encoded_push(d, s15, signed_decimal(a.revocation.freshness_required_sec as int));
    lemma_encoded_push(d, s16, a.issuer_pub@);
    lemma_encoded_push(d, s17, a.subject_pub@);
}

/// The text a gateway signs for a receipt is the domain `ECHO-RECEIPT`, the version line,
/// then one length-prefixed item per field in the protocol's order: authority id, invocation
/// id, subject, capability, resource, amount, currency, audience, nonce, authorization time,
/// previous receipt head, gateway id, gateway key.
pub proof fn lemma_receipt_text_layout(r: ReceiptClaims, gateway_id: Seq<char>, gateway_pub: Seq<char>)
    ensures
        receipt_text(r, gateway_id, gateway_pub) == "ECHO-RECEIPT"@ + version_line()
            + field_item(r.authority_id@) + field_item(r.invocation_id@) + field_item(r.subject@)
            + field_item(r.capability@) + field_item(r.resource@)
            + field_item(decimal(r.amount_minor as nat)) + field_item(opt_text(r.currency))
            + field_item(r.audience@) + field_item(r.nonce@)
            + field_item(signed_decimal(r.authorized_at as int))
            + field_item(opt_text(r.previous_receipt_head)) + field_item(gateway_id)
            + field_item(gateway_pub),
{
    let d = "ECHO-RECEIPT"@;
    let s0 = Seq::<Seq<char>>::empty();
    let s1 = s0.push(r.authority_id@);
    let s2 = s1.push(r.invocation_id@);
    let s3 = s2.push(r.subject@);
    let s4 = s3.push(r.capability@);
    let s5 = s4.push(r.resource@);
    let s6 = s5.push(decimal(r.amount_minor as nat));
    let s7 = s6.push(opt_text(r.currency));
    let s8 = s7.push(r.audience@);
    let s9 = s8.push(r.nonce@);
    let s10 = s9.push(signed_decimal(r.authorized_at as int));
    let s11 = s10.push(opt_text(r.previous_receipt_head));
    let s12 = s11.push(gateway_id);
    let s13 = s12.push(gateway_pub);
    assert(receipt_fields(r, gateway_id, gateway_pub) =~= s13);
    lemma_encoded_empty(d);
    lemma_encoded_push(d, s0, r.authority_id@);
    lemma_encoded_push(d, s1, r.invocation_id@);
    lemma_encoded_push(d, s2, r.subject@);
    lemma_encoded_push(d, s3, r.capability@);
    lemma_encoded_push(d, s4, r.resource@);
    lemma_encoded_push(d, s5, decimal(r.amount_minor as nat));
    lemma_encoded_push(d, s6, opt_text(r.currency));
    lemma_encoded_push(d, s7, r.audience@);
    lemma_encoded_push(d, s8, r.nonce@);
    lemma_encoded_push(d, s9, signed_decimal(r.authorized_at as int));
    lemma_encoded_push(d, s10, opt_text(r.previous_receipt_head));
    lemma_encoded_push(d, s11, gateway_id);
    lemma_encoded_push(d, s12, gateway_pub);
}

/// The id of a grant covers its signature: it is the hash of the text made of the domain
/// `ECHO-AUTHORITY-ID`, the version line, the grant's signed text as one length-prefixed item
/// and then its signature as another. Two grants whose signatures differ are hashed over
/// different texts, whatever their signed content.
pub proof fn lemma_authority_id_covers_signature(a: AuthorityObject, b: AuthorityObject)
    ensures
        authority_id_text(a) == sha256_hex_text(
            "ECHO-AUTHORITY-ID"@ + version_line() + field_item(authority_text(a)) + field_item(a.sig@),
        ),
        a.sig@ != b.sig@ ==> "ECHO-AUTHORITY-ID"@ + version_line() + field_item(authority_text(a))
            + field_item(a.sig@) != "ECHO-AUTHORITY-ID"@ + version_line() + field_item(
            authority_text(b),
        ) + field_item(b.sig@),
{
    let d = "ECHO-AUTHORITY-ID"@;
    let s0 = Seq::<Seq<char>>::empty();
    let fa = s0.push(authority_text(a)).push(a.sig@);
    let fb = s0.push(authority_text(b)).push(b.sig@);
    assert(seq![authority_text(a), a.sig@] =~= fa);
    assert(seq![authority_text(b), b.sig@] =~= fb);
    lemma_encoded_empty(d);
    lemma_encoded_push(d, s0, authority_text(a));
    lemma_encoded_push(d, s0.push(authority_text(a)), a.sig@);
    lemma_encoded_push(d, s0, authority_text(b));
    lemma_encoded_push(d, s0.push(authority_text(b)), b.sig@);
    if a.sig@ != b.sig@ && encoded(d, fa) == encoded(d, fb) {
        lemma_encoding_injective(d, fa, fb);
        assert(fa[1] == fb[1]);
    }
}

/// The head of the receipt chain after a receipt is the hash of the text made of the domain
/// `ECHO-RECEIPT-HEAD`, the version line and, as one length-prefixed item, the receipt's text
/// with an empty gateway id and key.
pub proof fn lemma_receipt_head_layout(r: ReceiptClaims)
    ensures
        receipt_head_text(r) == sha256_hex_text(
            "ECHO-RECEIPT-HEAD"@ + version_line() + field_item(receipt_text(r, ""@, ""@)),
        ),
{
    let d = "ECHO-RECEIPT-HEAD"@;
    let s0 = Seq::<Seq<char>>::empty();
    assert(seq![receipt_text(r, ""@, ""@)] =~= s0.push(receipt_text(r, ""@, ""@)));
    lemma_encoded_empty(d);
    lemma_encoded_push(d, s0, receipt_text(r, ""@, ""@));
}

} // verus!
