//! Lower-case hexadecimal text, and reading hexadecimal back after trimming white space.
use vstd::prelude::*;
use vstd::utf8::*;
use crate::text::{push_char, chars_of, string_from_chars, lemma_encode_ascii};

verus! {

/// The lower-case hexadecimal digit of `d` (`0 <= d < 16`).
pub open spec fn hex_digit(d: u8) -> char {
    if d < 10 {
        ((d + 48) as u8) as char
    } else {
        ((d + 87) as u8) as char
    }
}

/// Two lower-case hexadecimal digits per byte, most significant first (as `hex::encode` writes).
pub open spec fn hex_lower(b: Seq<u8>) -> Seq<char>
    decreases b.len(),
{
    if b.len() == 0 {
        Seq::<char>::empty()
    } else {
        hex_lower(b.drop_last()) + seq![hex_digit(b.last() / 16), hex_digit(b.last() % 16)]
    }
}

/// `c` is a lower-case hexadecimal digit.
pub open spec fn is_lower_hex_digit(c: char) -> bool {
    ('0' <= c <= '9') || ('a' <= c <= 'f')
}

/// The value of a hexadecimal digit of either case, as `char::to_digit(16)` reads a byte.
pub open spec fn nibble(c: u8) -> Option<u8> {
    if 48 <= c <= 57 {
        Some((c - 48) as u8)
    } else if 97 <= c <= 102 {
        Some((c - 87) as u8)
    } else if 65 <= c <= 70 {
        Some((c - 55) as u8)
    } else {
        None
    }
}

/// The bytes written by pairs of hexadecimal digits in `bs`; `None` when the length is odd
/// or some byte is not a hexadecimal digit.
pub open spec fn hex_bytes(bs: Seq<u8>) -> Option<Seq<u8>> {
    if bs.len() % 2 != 0 || exists|k: int| 0 <= k < bs.len() && #[trigger] nibble(bs[k]) is None {
        None
    } else {
        Some(
            Seq::new(
                (bs.len() / 2) as nat,
                |j: int| (nibble(bs[2 * j])->0 * 16 + nibble(bs[2 * j + 1])->0) as u8,
            ),
        )
    }
}

/// Unicode white space, as `char::is_whitespace` defines it.
pub open spec fn is_white_space(c: char) -> bool {
    ||| '\u{9}' <= c <= '\u{d}'
    ||| c == ' '
    ||| c == '\u{85}'
    ||| c == '\u{a0}'
    ||| c == '\u{1680}'
    ||| '\u{2000}' <= c <= '\u{200a}'
    ||| c == '\u{2028}'
    ||| c == '\u{2029}'
    ||| c == '\u{202f}'
    ||| c == '\u{205f}'
    ||| c == '\u{3000}'
}

/// `s` without its leading white space.
pub open spec fn trim_start(s: Seq<char>) -> Seq<char>
    decreases s.len(),
{
    if s.len() > 0 && is_white_space(s[0]) {
        trim_start(s.drop_first())
    } else {
        s
    }
}

/// `s` without its trailing white space.
pub open spec fn trim_end(s: Seq<char>) -> Seq<char>
    decreases s.len(),
{
    if s.len() > 0 && is_white_space(s.last()) {
        trim_end(s.drop_last())
    } else {
        s
    }
}

/// `s` without leading and trailing white space (as `str::trim` gives it).
pub open spec fn trim(s: Seq<char>) -> Seq<char> {
    trim_end(trim_start(s))
}

/// What reading the hexadecimal text `s` gives, after trimming it.
pub open spec fn hex_text_bytes(s: Seq<char>) -> Option<Seq<u8>> {
    hex_bytes(encode_utf8(trim(s)))
}

fn white_space(c: char) -> (r: bool)
    ensures
        r == is_white_space(c),
{
    ('\u{9}' <= c && c <= '\u{d}') || c == ' ' || c == '\u{85}' || c == '\u{a0}' || c
        == '\u{1680}' || ('\u{2000}' <= c && c <= '\u{200a}') || c == '\u{2028}' || c
        == '\u{2029}' || c == '\u{202f}' || c == '\u{205f}' || c == '\u{3000}'
}

/// Removes leading and trailing white space.
pub fn trim_text(s: &str) -> (r: String)
    ensures
        r@ == trim(s@),
{
    let cs = chars_of(s);
    let n = cs.len();
    let mut lo: usize = 0;
    assert(cs@.skip(0) =~= cs@);
    while lo < n && white_space(cs[lo])
        invariant
            n == cs@.len(),
            lo <= n,
            trim_start(cs@) == trim_start(cs@.skip(lo as int)),
        decreases n - lo,
    {
        assert(cs@.skip(lo as int).drop_first() =~= cs@.skip(lo + 1));
        lo = lo + 1;
    }
    let ghost t = cs@.skip(lo as int);
    assert(trim_start(cs@) == t);
    let mut hi: usize = n;
    assert(cs@.subrange(lo as int, n as int) =~= t);
    while hi > lo && white_space(cs[hi - 1])
        invariant
            n == cs@.len(),
            lo <= hi <= n,
            t == cs@.skip(lo as int),
            trim_end(t) == trim_end(cs@.subrange(lo as int, hi as int)),
        decreases hi,
    {
        assert(cs@.subrange(lo as int, hi as int).drop_last() =~= cs@.subrange(lo as int, hi - 1));
        hi = hi - 1;
    }
    assert(trim_end(t) == cs@.subrange(lo as int, hi as int));
    let mut out: Vec<char> = Vec::new();
    let mut k: usize = lo;
    while k < hi
        invariant
            n == cs@.len(),
            lo <= k <= hi <= n,
            out@ == cs@.subrange(lo as int, k as int),
        decreases hi - k,
    {
        out.push(cs[k]);
        assert(out@ =~= cs@.subrange(lo as int, k + 1));
        k = k + 1;
    }
    string_from_chars(&out)
}

fn hex_digit_of(d: u8) -> (r: char)
    requires
        d < 16,
    ensures
        r == hex_digit(d),
{
    if d < 10 {
        (d + 48) as char
    } else {
        (d + 87) as char
    }
}

/// Lower-case hexadecimal text of `bytes` (two digits per byte).
pub fn hex_encode(bytes: &[u8]) -> (r: String)
    ensures
        r@ == hex_lower(bytes@),
{
    let mut out = String::new();
    let mut i: usize = 0;
    assert(bytes@.take(0) =~= Seq::<u8>::empty());
    while i < bytes.len()
        invariant
            i <= bytes@.len(),
            out@ == hex_lower(bytes@.take(i as int)),
        decreases bytes@.len() - i,
    {
        let b = bytes[i];
        push_char(&mut out, hex_digit_of(b / 16));
        push_char(&mut out, hex_digit_of(b % 16));
        assert(bytes@.take(i + 1).drop_last() =~= bytes@.take(i as int));
        assert(out@ =~= hex_lower(bytes@.take(i + 1)));
        i = i + 1;
    }
    assert(bytes@.take(bytes@.len() as int) =~= bytes@);
    out
}

fn nibble_of(c: u8) -> (r: Option<u8>)
    ensures
        r == nibble(c),
        r matches Some(v) ==> v < 16,
{
    if 48 <= c && c <= 57 {
        Some(c - 48)
    } else if 97 <= c && c <= 102 {
        Some(c - 87)
    } else if 65 <= c && c <= 70 {
        Some(c - 55)
    } else {
        None
    }
}

/// Reads hexadecimal text after trimming surrounding white space: `None` when the trimmed
/// text has an odd number of bytes or a byte that is not a hexadecimal digit.
pub fn hex_decode(s: &str) -> (r: Option<Vec<u8>>)
    ensures
        match r {
            Some(v) => hex_text_bytes(s@) == Some(v@),
            None => hex_text_bytes(s@) is None,
        },
{
    let t = trim_text(s);
    let bytes = t.as_str().as_bytes();
    let n = bytes.len();
    if n % 2 != 0 {
        return None;
    }
    let mut out: Vec<u8> = Vec::new();
    let mut i: usize = 0;
    while i < n
        invariant
            n == bytes@.len(),
            n % 2 == 0,
            i % 2 == 0,
            i <= n,
            bytes@ == encode_utf8(trim(s@)),
            forall|k: int| 0 <= k < i ==> #[trigger] nibble(bytes@[k]) is Some,
            out@.len() == i / 2,
            forall|j: int| 0 <= j < i / 2 ==> #[trigger] out@[j] == (nibble(bytes@[2 * j])->0 * 16
                + nibble(bytes@[2 * j + 1])->0) as u8,
        decreases n - i,
    {
        let hi = nibble_of(bytes[i]);
        let lo = nibble_of(bytes[i + 1]);
        match (hi, lo) {
            (Some(h), Some(l)) => {
                out.push(h * 16 + l);
                assert(out@[(i / 2) as int] == (nibble(bytes@[2 * (i / 2) as int])->0 * 16 + nibble(
                    bytes@[2 * (i / 2) as int + 1],
                )->0) as u8);
                i = i + 2;
            },
            _ => {
                proof {
                    if hi is None {
                        assert(nibble(bytes@[i as int]) is None);
                    } else {
                        assert(nibble(bytes@[i + 1]) is None);
                    }
                }
                return None;
            },
        }
    }
    assert(out@ =~= hex_bytes(bytes@)->0);
    Some(out)
}

/// Reading back what [`hex_encode`] writes gives the bytes that were encoded.
pub proof fn lemma_hex_round_trip(b: Seq<u8>)
    ensures
        hex_text_bytes(hex_lower(b)) == Some(b),
{
    lemma_hex_lower_shape(b);
    let h = hex_lower(b);
    assert(trim_start(h) == h);
    assert(trim_end(h) == h);
    lemma_encode_ascii(h);
    let bs = encode_utf8(h);
    assert forall|k: int| 0 <= k < bs.len() implies #[trigger] nibble(bs[k]) is Some by {
        assert(bs[k] == h[k] as u8);
    }
    assert(hex_bytes(bs)->0 =~= b) by {
        assert forall|j: int| 0 <= j < b.len() implies #[trigger] hex_bytes(bs)->0[j] == b[j] by {
            assert(bs[2 * j] == h[2 * j] as u8);
            assert(bs[2 * j + 1] == h[2 * j + 1] as u8);
            let x = b[j];
            assert((((x / 16) as u8) * 16 + ((x % 16) as u8)) as u8 == x) by (bit_vector);
        }
    }
}

/// The digits of each byte stand at positions `2j` and `2j + 1`, and all are ASCII and not
/// white space.
proof fn lemma_hex_lower_shape(b: Seq<u8>)
    ensures
        hex_lower(b).len() == 2 * b.len(),
        is_ascii_chars(hex_lower(b)),
        forall|j: int| 0 <= j < b.len() ==> {
            &&& #[trigger] hex_lower(b)[2 * j] == hex_digit(b[j] / 16)
            &&& hex_lower(b)[2 * j + 1] == hex_digit(b[j] % 16)
        },
        forall|k: int| 0 <= k < hex_lower(b).len() ==> !is_white_space(#[trigger] hex_lower(b)[k])
            && nibble(hex_lower(b)[k] as u8) is Some && is_lower_hex_digit(hex_lower(b)[k]),
        forall|j: int| 0 <= j < b.len() ==> {
            &&& #[trigger] nibble(hex_lower(b)[2 * j] as u8) == Some((b[j] / 16) as u8)
            &&& nibble(hex_lower(b)[2 * j + 1] as u8) == Some((b[j] % 16) as u8)
        },
    decreases b.len(),
{
    if b.len() > 0 {
        lemma_hex_lower_shape(b.drop_last());
        let p = hex_lower(b.drop_last());
        let h = hex_lower(b);
        assert forall|j: int| 0 <= j < b.len() implies {
            &&& #[trigger] h[2 * j] == hex_digit(b[j] / 16)
            &&& h[2 * j + 1] == hex_digit(b[j] % 16)
        } by {
            if j < b.len() - 1 {
                assert(h[2 * j] == p[2 * j]);
                assert(h[2 * j + 1] == p[2 * j + 1]);
            }
        }
    }
}

/// Lower-case hex of `b` has two characters per byte, each a lower-case hexadecimal digit.
pub proof fn lemma_hex_lower_digits(b: Seq<u8>)
    ensures
        hex_lower(b).len() == 2 * b.len(),
        forall|k: int| 0 <= k < hex_lower(b).len() ==> is_lower_hex_digit(#[trigger] hex_lower(b)[k]),
{
    lemma_hex_lower_shape(b);
}

} // verus!
