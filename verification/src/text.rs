//! Character-level helpers on `str` and `String`, with their models as `Seq<char>`.
use vstd::prelude::*;
use vstd::utf8::*;

verus! {

/// The character of a decimal digit `d` (`0 <= d < 10`).
pub open spec fn digit_char(d: int) -> char {
    ((d + 48) as u8) as char
}

/// The decimal rendering of a natural number, most significant digit first,
/// without leading zeros (`0` is rendered as `"0"`).
pub open spec fn decimal(n: nat) -> Seq<char>
    decreases n,
{
    if n < 10 {
        seq![digit_char(n as int)]
    } else {
        decimal(n / 10).push(digit_char((n % 10) as int))
    }
}

/// The decimal rendering of an integer: a leading `-` for negative values.
pub open spec fn signed_decimal(n: int) -> Seq<char> {
    if n < 0 {
        seq!['-'] + decimal((-n) as nat)
    } else {
        decimal(n as nat)
    }
}

/// The text of a boolean, as Rust prints it.
pub open spec fn bool_text(b: bool) -> Seq<char> {
    if b {
        seq!['t', 'r', 'u', 'e']
    } else {
        seq!['f', 'a', 'l', 's', 'e']
    }
}

/// `String::push`: appends one character.
#[verifier::external_body]
pub(crate) fn push_char(s: &mut String, c: char)
    ensures
        final(s)@ == old(s)@.push(c),
{
    s.push(c);
}

/// `String::push_str`: appends the characters of `t`.
#[verifier::external_body]
pub(crate) fn push_str(s: &mut String, t: &str)
    ensures
        final(s)@ == old(s)@ + t@,
{
    s.push_str(t);
}

/// `<str as PartialEq>::eq`: two string slices are equal when they hold the same characters.
#[verifier::external_body]
pub(crate) fn str_equal(a: &str, b: &str) -> (r: bool)
    ensures
        r == (a@ == b@),
{
    a == b
}

/// Collects the characters of `s` into a vector.
pub fn chars_of(s: &str) -> (r: Vec<char>)
    ensures
        r@ == s@,
{
    let mut out: Vec<char> = Vec::new();
    for c in it: s.chars()
        invariant
            out@ == it.seq().take(it.index() as int),
    {
        out.push(c);
    }
    out
}

/// Builds a `String` from a vector of characters.
pub fn string_from_chars(cs: &Vec<char>) -> (r: String)
    ensures
        r@ == cs@,
{
    let mut out = String::new();
    for i in 0..cs.len()
        invariant
            out@ == cs@.take(i as int),
    {
        push_char(&mut out, cs[i]);
        assert(cs@.take(i + 1) =~= cs@.take(i as int).push(cs@[i as int]));
    }
    assert(cs@.take(cs.len() as int) =~= cs@);
    out
}

/// A copy of the characters of `s` as an owned `String`.
pub fn owned(s: &str) -> (r: String)
    ensures
        r@ == s@,
{
    let mut out = String::new();
    push_str(&mut out, s);
    assert(out@ =~= s@);
    out
}

/// Appends the decimal rendering of `n`.
pub fn push_decimal(out: &mut String, n: u64)
    ensures
        final(out)@ == old(out)@ + decimal(n as nat),
    decreases n,
{
    if n >= 10 {
        push_decimal(out, n / 10);
    }
    let d: u8 = (n % 10) as u8;
    push_char(out, (d + 48u8) as char);
    assert(final(out)@ =~= old(out)@ + decimal(n as nat));
}

/// Appends the decimal rendering of a signed integer.
pub fn push_signed_decimal(out: &mut String, n: i64)
    ensures
        final(out)@ == old(out)@ + signed_decimal(n as int),
{
    if n < 0 {
        push_char(out, '-');
        let magnitude: u64 = if n == i64::MIN {
            9223372036854775808u64
        } else {
            (-n) as u64
        };
        push_decimal(out, magnitude);
        assert(final(out)@ =~= old(out)@ + signed_decimal(n as int));
    } else {
        push_decimal(out, n as u64);
    }
}

/// The decimal text of an unsigned integer (as `u64::to_string` gives it).
pub fn u64_text(n: u64) -> (r: String)
    ensures
        r@ == decimal(n as nat),
{
    let mut out = String::new();
    push_decimal(&mut out, n);
    assert(out@ =~= decimal(n as nat));
    out
}

/// The decimal text of a signed integer (as `i64::to_string` gives it).
pub fn i64_text(n: i64) -> (r: String)
    ensures
        r@ == signed_decimal(n as int),
{
    let mut out = String::new();
    push_signed_decimal(&mut out, n);
    assert(out@ =~= signed_decimal(n as int));
    out
}

/// The text of a boolean (as `bool::to_string` gives it).
pub fn bool_string(b: bool) -> (r: String)
    ensures
        r@ == bool_text(b),
{
    let mut out = String::new();
    if b {
        push_char(&mut out, 't');
        push_char(&mut out, 'r');
        push_char(&mut out, 'u');
        push_char(&mut out, 'e');
    } else {
        push_char(&mut out, 'f');
        push_char(&mut out, 'a');
        push_char(&mut out, 'l');
        push_char(&mut out, 's');
        push_char(&mut out, 'e');
    }
    assert(out@ =~= bool_text(b));
    out
}

/// UTF-8 encoding distributes over concatenation.
pub proof fn lemma_encode_utf8_concat(a: Seq<char>, b: Seq<char>)
    ensures
        encode_utf8(a + b) == encode_utf8(a) + encode_utf8(b),
    decreases a.len(),
{
    if a.len() == 0 {
        assert(a + b =~= b);
        assert(encode_utf8(a) =~= Seq::<u8>::empty());
        assert(encode_utf8(a) + encode_utf8(b) =~= encode_utf8(b));
    } else {
        assert((a + b).drop_first() =~= a.drop_first() + b);
        assert((a + b)[0] == a[0]);
        lemma_encode_utf8_concat(a.drop_first(), b);
        assert(encode_utf8(a + b) =~= encode_utf8(a) + encode_utf8(b));
    }
}

/// Every character takes at least one byte, so a sequence is no longer than its encoding;
/// a non-empty sequence has a non-empty encoding.
pub proof fn lemma_encode_utf8_len(a: Seq<char>)
    ensures
        encode_utf8(a).len() >= a.len(),
    decreases a.len(),
{
    if a.len() > 0 {
        lemma_encode_utf8_len(a.drop_first());
        let c = a[0] as u32;
        assert(encode_scalar(c).len() >= 1);
    }
}

/// An ASCII sequence encodes to its own code units.
pub proof fn lemma_encode_ascii(a: Seq<char>)
    requires
        is_ascii_chars(a),
    ensures
        encode_utf8(a) == Seq::new(a.len(), |i: int| a[i] as u8),
{
    is_ascii_chars_encode_utf8(a);
    assert(encode_utf8(a) =~= Seq::new(a.len(), |i: int| a[i] as u8));
}

/// A decimal rendering is a non-empty run of digit characters.
pub proof fn lemma_decimal_digits(n: nat)
    ensures
        decimal(n).len() >= 1,
        forall|k: int| 0 <= k < decimal(n).len() ==> '0' <= #[trigger] decimal(n)[k] <= '9',
    decreases n,
{
    if n >= 10 {
        lemma_decimal_digits(n / 10);
    }
}

/// Distinct digits have distinct characters.
proof fn lemma_digit_injective(a: int, b: int)
    requires
        0 <= a < 10,
        0 <= b < 10,
        digit_char(a) == digit_char(b),
    ensures
        a == b,
{
    assert(digit_char(a) as u32 == a + 48);
    assert(digit_char(b) as u32 == b + 48);
}

/// Distinct numbers have distinct decimal renderings.
pub proof fn lemma_decimal_injective(m: nat, n: nat)
    requires
        decimal(m) == decimal(n),
    ensures
        m == n,
    decreases m + n,
{
    if m < 10 && n < 10 {
        assert(decimal(m) == seq![digit_char(m as int)]);
        assert(decimal(n) == seq![digit_char(n as int)]);
        assert(decimal(m)[0] == decimal(n)[0]);
        assert(seq![digit_char(m as int)][0] == digit_char(m as int));
        assert(seq![digit_char(n as int)][0] == digit_char(n as int));
        assert(digit_char(m as int) == digit_char(n as int));
        lemma_digit_injective(m as int, n as int);
    } else if m >= 10 && n >= 10 {
        lemma_decimal_digits(m / 10);
        lemma_decimal_digits(n / 10);
        assert(decimal(m).drop_last() =~= decimal(m / 10));
        assert(decimal(n).drop_last() =~= decimal(n / 10));
        lemma_decimal_injective(m / 10, n / 10);
        assert(decimal(m) == decimal(m / 10).push(digit_char((m % 10) as int)));
        assert(decimal(n) == decimal(n / 10).push(digit_char((n % 10) as int)));
        assert(decimal(m).last() == decimal(n).last());
        assert(decimal(m).last() == digit_char((m % 10) as int));
        assert(decimal(n).last() == digit_char((n % 10) as int));
        lemma_digit_injective((m % 10) as int, (n % 10) as int);
    } else if m >= 10 {
        lemma_decimal_digits(m / 10);
        assert(decimal(m).len() >= 2);
    } else {
        lemma_decimal_digits(n / 10);
        assert(decimal(n).len() >= 2);
    }
}

/// Distinct integers have distinct signed decimal renderings.
pub proof fn lemma_signed_decimal_injective(m: int, n: int)
    requires
        signed_decimal(m) == signed_decimal(n),
    ensures
        m == n,
{
    lemma_decimal_digits(if m < 0 { (-m) as nat } else { m as nat });
    lemma_decimal_digits(if n < 0 { (-n) as nat } else { n as nat });
    if m < 0 && n < 0 {
        assert(signed_decimal(m).drop_first() =~= decimal((-m) as nat));
        assert(signed_decimal(n).drop_first() =~= decimal((-n) as nat));
        lemma_decimal_injective((-m) as nat, (-n) as nat);
    } else if m >= 0 && n >= 0 {
        lemma_decimal_injective(m as nat, n as nat);
    } else if m < 0 {
        assert(signed_decimal(m)[0] == '-');
        assert(decimal(n as nat)[0] != '-');
    } else {
        assert(signed_decimal(n)[0] == '-');
        assert(decimal(m as nat)[0] != '-');
    }
}

} // verus!
