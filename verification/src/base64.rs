//! Standard base64 (RFC 4648 alphabet, `=` padding): the lenient decoder that signatures and
//! keys are read with, and the encoder that writes them.
use vstd::prelude::*;
use crate::text::push_char;
use vstd::utf8::*;
use crate::text::{lemma_encode_utf8_concat, lemma_encode_ascii};

verus! {

/// The value of a base64 symbol, or `None` for a byte outside the alphabet.
pub open spec fn sextet_value(c: u8) -> Option<u8> {
    if 65 <= c <= 90 {
        Some((c - 65) as u8)
    } else if 97 <= c <= 122 {
        Some((c - 97 + 26) as u8)
    } else if 48 <= c <= 57 {
        Some((c - 48 + 52) as u8)
    } else if c == 43 {
        Some(62u8)
    } else if c == 47 {
        Some(63u8)
    } else {
        None
    }
}

/// The symbol for a 6-bit value.
pub open spec fn symbol(v: u8) -> char {
    if v < 26 {
        ((v + 65) as u8) as char
    } else if v < 52 {
        ((v - 26 + 97) as u8) as char
    } else if v < 62 {
        ((v - 52 + 48) as u8) as char
    } else if v == 62 {
        '+'
    } else {
        '/'
    }
}

/// The 6-bit values of the symbols in `s`, with every `=` skipped wherever it stands;
/// `None` when some other byte is not in the alphabet.
pub open spec fn sextets(s: Seq<u8>) -> Option<Seq<u8>>
    decreases s.len(),
{
    if s.len() == 0 {
        Some(Seq::<u8>::empty())
    } else {
        match sextets(s.drop_last()) {
            None => None,
            Some(prev) => {
                if s.last() == 61 {
                    Some(prev)
                } else {
                    match sextet_value(s.last()) {
                        Some(v) => Some(prev.push(v)),
                        None => None,
                    }
                }
            },
        }
    }
}

/// The bytes packed from a stream of 6-bit values, most significant bit first: within each
/// group of four values, every value after the first completes one byte from the remaining
/// bits of the value before it and the leading bits of itself. Trailing bits that do not
/// fill a byte are dropped.
pub open spec fn pack(x: Seq<u8>) -> Seq<u8>
    decreases x.len(),
{
    if x.len() == 0 {
        Seq::<u8>::empty()
    } else {
        let n = x.len() - 1;
        let p = pack(x.drop_last());
        let v = x.last();
        if n % 4 == 0 {
            p
        } else if n % 4 == 1 {
            p.push((x[n - 1] << 2) | (v >> 4))
        } else if n % 4 == 2 {
            p.push(((x[n - 1] & 15) << 4) | (v >> 2))
        } else {
            p.push(((x[n - 1] & 3) << 6) | v)
        }
    }
}

/// What decoding `s` gives: `None` when a byte is neither a symbol nor `=`.
pub open spec fn decode_spec(s: Seq<u8>) -> Option<Seq<u8>> {
    match sextets(s) {
        Some(x) => Some(pack(x)),
        None => None,
    }
}

/// The standard base64 encoding of `b`, with `=` padding of the last group.
pub open spec fn encode_spec(b: Seq<u8>) -> Seq<char>
    decreases b.len(),
{
    if b.len() == 0 {
        Seq::<char>::empty()
    } else if b.len() == 1 {
        seq![symbol(b[0] >> 2), symbol((b[0] & 3) << 4), '=', '=']
    } else if b.len() == 2 {
        seq![
            symbol(b[0] >> 2),
            symbol(((b[0] & 3) << 4) | (b[1] >> 4)),
            symbol((b[1] & 15) << 2),
            '=',
        ]
    } else {
        seq![
            symbol(b[0] >> 2),
            symbol(((b[0] & 3) << 4) | (b[1] >> 4)),
            symbol(((b[1] & 15) << 2) | (b[2] >> 6)),
            symbol(b[2] & 63),
        ] + encode_spec(b.skip(3))
    }
}

fn sextet_of(c: u8) -> (r: Option<u8>)
    ensures
        r == sextet_value(c),
        r matches Some(v) ==> v < 64,
{
    if 65 <= c && c <= 90 {
        Some(c - 65)
    } else if 97 <= c && c <= 122 {
        Some(c - 97 + 26)
    } else if 48 <= c && c <= 57 {
        Some(c - 48 + 52)
    } else if c == 43 {
        Some(62)
    } else if c == 47 {
        Some(63)
    } else {
        None
    }
}

fn symbol_of(v: u8) -> (r: char)
    requires
        v < 64,
    ensures
        r == symbol(v),
{
    if v < 26 {
        (v + 65) as char
    } else if v < 52 {
        (v - 26 + 97) as char
    } else if v < 62 {
        (v - 52 + 48) as char
    } else if v == 62 {
        '+'
    } else {
        '/'
    }
}

proof fn lemma_step_phase0(buf: u32, v: u8)
    requires
        v < 64,
    ensures
        (((buf << 6u32) | (v as u32)) & 63u32) == (v as u32),
{
    assert((((buf << 6u32) | (v as u32)) & 63u32) == (v as u32)) by (bit_vector)
        requires
            v < 64,
    ;
}

proof fn lemma_step_phase1(buf: u32, p: u8, v: u8)
    requires
        v < 64,
        p < 64,
        (buf & 63u32) == (p as u32),
    ensures
        ((((buf << 6u32) | (v as u32)) >> 4u32) as u8) == ((p << 2u8) | (v >> 4u8)),
        (((buf << 6u32) | (v as u32)) & 15u32) == ((v & 15u8) as u32),
{
    assert(((((buf << 6u32) | (v as u32)) >> 4u32) as u8) == ((p << 2u8) | (v >> 4u8))
        && (((buf << 6u32) | (v as u32)) & 15u32) == ((v & 15u8) as u32)) by (bit_vector)
        requires
            v < 64,
            p < 64,
            (buf & 63u32) == (p as u32),
    ;
}

proof fn lemma_step_phase2(buf: u32, p: u8, v: u8)
    requires
        v < 64,
        (buf & 15u32) == ((p & 15u8) as u32),
    ensures
        ((((buf << 6u32) | (v as u32)) >> 2u32) as u8) == (((p & 15u8) << 4u8) | (v >> 2u8)),
        (((buf << 6u32) | (v as u32)) & 3u32) == ((v & 3u8) as u32),
{
    assert(((((buf << 6u32) | (v as u32)) >> 2u32) as u8) == (((p & 15u8) << 4u8) | (v >> 2u8))
        && (((buf << 6u32) | (v as u32)) & 3u32) == ((v & 3u8) as u32)) by (bit_vector)
        requires
            v < 64,
            (buf & 15u32) == ((p & 15u8) as u32),
    ;
}

proof fn lemma_step_phase3(buf: u32, p: u8, v: u8)
    requires
        v < 64,
        (buf & 3u32) == ((p & 3u8) as u32),
    ensures
        ((((buf << 6u32) | (v as u32)) >> 0u32) as u8) == (((p & 3u8) << 6u8) | v),
{
    assert(((((buf << 6u32) | (v as u32)) >> 0u32) as u8) == (((p & 3u8) << 6u8) | v))
        by (bit_vector)
        requires
            v < 64,
            (buf & 3u32) == ((p & 3u8) as u32),
    ;
}

/// The number of pending bits after `n` values have been read.
pub open spec fn pending_bits(n: nat) -> u32 {
    if n % 4 == 0 {
        0
    } else if n % 4 == 1 {
        6
    } else if n % 4 == 2 {
        4
    } else {
        2
    }
}

/// The accumulator holds the pending low bits of the last value read.
spec fn accumulator_ok(buf: u32, x: Seq<u8>) -> bool {
    &&& x.len() % 4 == 1 ==> (buf & 63u32) == (x.last() as u32)
    &&& x.len() % 4 == 2 ==> (buf & 15u32) == ((x.last() & 15u8) as u32)
    &&& x.len() % 4 == 3 ==> (buf & 3u32) == ((x.last() & 3u8) as u32)
}

/// Decodes base64 text leniently: `=` is skipped wherever it stands, the values are packed
/// into bytes, and trailing bits that do not fill a byte are dropped. Any other byte outside
/// the alphabet gives `None`.
pub fn base64_decode(s: &str) -> (r: Option<Vec<u8>>)
    ensures
        match r {
            Some(v) => decode_spec(encode_utf8(s@)) == Some(v@),
            None => decode_spec(encode_utf8(s@)) is None,
        },
{
    let bytes = s.as_bytes();
    let mut out: Vec<u8> = Vec::new();
    let mut buf: u32 = 0;
    let mut bits: u32 = 0;
    let ghost mut x: Seq<u8> = Seq::empty();
    let mut i: usize = 0;
    assert(bytes@.take(0) =~= Seq::<u8>::empty());
    while i < bytes.len()
        invariant
            i <= bytes@.len(),
            bytes@ == encode_utf8(s@),
            sextets(bytes@.take(i as int)) == Some(x),
            forall|k: int| 0 <= k < x.len() ==> #[trigger] x[k] < 64,
            out@ == pack(x),
            bits == pending_bits(x.len()),
            accumulator_ok(buf, x),
        decreases bytes@.len() - i,
    {
        let c = bytes[i];
        assert(bytes@.take(i + 1).drop_last() =~= bytes@.take(i as int));
        if c == 61 {
            i = i + 1;
        } else {
            let val = sextet_of(c);
            match val {
                None => {
                    proof {
                        lemma_sextets_none_extends(bytes@, (i + 1) as int);
                    }
                    return None;
                },
                Some(v) => {
                    let ghost old_buf = buf;
                    let ghost old_x = x;
                    buf = (buf << 6) | (v as u32);
                    bits = bits + 6;
                    proof {
                        x = x.push(v);
                        assert(x.drop_last() =~= old_x);
                    }
                    if bits >= 8 {
                        bits = bits - 8;
                        let byte = (buf >> bits) as u8;
                        out.push(byte);
                        proof {
                            let n = old_x.len();
                            let p = old_x.last();
                            if n % 4 == 1 {
                                lemma_step_phase1(old_buf, p, v);
                            } else if n % 4 == 2 {
                                lemma_step_phase2(old_buf, p, v);
                            } else {
                                lemma_step_phase3(old_buf, p, v);
                            }
                        }
                    } else {
                        proof {
                            lemma_step_phase0(old_buf, v);
                        }
                    }
                    i = i + 1;
                },
            }
        }
    }
    assert(bytes@.take(bytes@.len() as int) =~= bytes@);
    Some(out)
}

/// Once a prefix of the text holds a byte outside the alphabet, so does the whole text.
proof fn lemma_sextets_none_extends(s: Seq<u8>, k: int)
    requires
        0 <= k <= s.len(),
        sextets(s.take(k)) is None,
    ensures
        sextets(s) is None,
    decreases s.len() - k,
{
    if k < s.len() {
        assert(s.take(k + 1).drop_last() =~= s.take(k));
        lemma_sextets_none_extends(s, k + 1);
    } else {
        assert(s.take(k) =~= s);
    }
}

/// Encodes bytes as standard base64 with `=` padding.
pub fn b64(bytes: &[u8]) -> (r: String)
    ensures
        r@ == encode_spec(bytes@),
{
    let mut out = String::new();
    let n = bytes.len();
    let mut i: usize = 0;
    assert(bytes@.skip(0) =~= bytes@);
    while i < n
        invariant
            n == bytes@.len(),
            i <= n,
            encode_spec(bytes@) == out@ + encode_spec(bytes@.skip(i as int)),
        decreases n - i,
    {
        let b0 = bytes[i];
        let rest = n - i;
        let ghost tail = bytes@.skip(i as int);
        assert(tail[0] == b0);
        assert((b0 >> 2u8) < 64 && ((b0 & 3u8) << 4u8) < 64) by (bit_vector);
        push_char(&mut out, symbol_of(b0 >> 2));
        if rest == 1 {
            push_char(&mut out, symbol_of((b0 & 3) << 4));
            push_char(&mut out, '=');
            push_char(&mut out, '=');
            i = n;
            assert(bytes@.skip(n as int) =~= Seq::<u8>::empty());
        } else {
            let b1 = bytes[i + 1];
            assert(tail[1] == b1);
            assert((((b0 & 3u8) << 4u8) | (b1 >> 4u8)) < 64 && ((b1 & 15u8) << 2u8) < 64)
                by (bit_vector);
            push_char(&mut out, symbol_of(((b0 & 3) << 4) | (b1 >> 4)));
            if rest == 2 {
                push_char(&mut out, symbol_of((b1 & 15) << 2));
                push_char(&mut out, '=');
                i = n;
                assert(bytes@.skip(n as int) =~= Seq::<u8>::empty());
            } else {
                let b2 = bytes[i + 2];
                assert(tail[2] == b2);
                assert((((b1 & 15u8) << 2u8) | (b2 >> 6u8)) < 64 && (b2 & 63u8) < 64)
                    by (bit_vector);
                push_char(&mut out, symbol_of(((b1 & 15) << 2) | (b2 >> 6)));
                push_char(&mut out, symbol_of(b2 & 63));
                assert(tail.skip(3) =~= bytes@.skip(i + 3));
                i = i + 3;
            }
        }
    }
    assert(out@ =~= encode_spec(bytes@));
    out
}

/// Reading the symbols of two texts one after the other gives the values of the first
/// followed by those of the second.
proof fn lemma_sextets_concat(s1: Seq<u8>, s2: Seq<u8>)
    requires
        sextets(s1) is Some,
        sextets(s2) is Some,
    ensures
        sextets(s1 + s2) == Some(sextets(s1)->0 + sextets(s2)->0),
    decreases s2.len(),
{
    if s2.len() == 0 {
        assert(s1 + s2 =~= s1);
        assert(sextets(s1)->0 + sextets(s2)->0 =~= sextets(s1)->0);
    } else {
        assert((s1 + s2).drop_last() =~= s1 + s2.drop_last());
        assert((s1 + s2).last() == s2.last());
        lemma_sextets_concat(s1, s2.drop_last());
        let a = sextets(s1)->0;
        let c = sextets(s2.drop_last())->0;
        if s2.last() != 61 {
            let v = sextet_value(s2.last())->0;
            assert((a + c).push(v) =~= a + c.push(v));
        }
    }
}

/// Packing splits at a boundary between groups of four values.
proof fn lemma_pack_concat(x1: Seq<u8>, x2: Seq<u8>)
    requires
        x1.len() % 4 == 0,
    ensures
        pack(x1 + x2) == pack(x1) + pack(x2),
    decreases x2.len(),
{
    if x2.len() == 0 {
        assert(x1 + x2 =~= x1);
        assert(pack(x1) + pack(x2) =~= pack(x1));
    } else {
        let x = x1 + x2;
        assert(x.drop_last() =~= x1 + x2.drop_last());
        lemma_pack_concat(x1, x2.drop_last());
        let n2 = x2.len() - 1;
        let n = x.len() - 1;
        assert(n % 4 == n2 % 4);
        if n2 % 4 != 0 {
            assert(x[n - 1] == x2[n2 - 1]);
        }
        assert(x.last() == x2.last());
        let p = pack(x1);
        let q = pack(x2.drop_last());
        if n2 % 4 == 1 {
            assert((p + q).push((x2[n2 - 1] << 2) | (x2.last() >> 4)) =~= p + q.push(
                (x2[n2 - 1] << 2) | (x2.last() >> 4),
            ));
        } else if n2 % 4 == 2 {
            assert((p + q).push(((x2[n2 - 1] & 15) << 4) | (x2.last() >> 2)) =~= p + q.push(
                ((x2[n2 - 1] & 15) << 4) | (x2.last() >> 2),
            ));
        } else if n2 % 4 == 3 {
            assert((p + q).push(((x2[n2 - 1] & 3) << 6) | x2.last()) =~= p + q.push(
                ((x2[n2 - 1] & 3) << 6) | x2.last(),
            ));
        }
    }
}

/// Reading back the symbol of a 6-bit value gives the value.
proof fn lemma_symbol_value(v: u8)
    requires
        v < 64,
    ensures
        sextet_value(symbol(v) as u8) == Some(v),
        symbol(v) as u8 != 61,
        '\0' <= symbol(v) <= '\u{7f}',
{
}

/// The values read from the encoding of one (possibly partial) group.
proof fn lemma_sextets_group(cs: Seq<char>, vs: Seq<u8>, pad: int)
    requires
        cs.len() == 4,
        0 <= pad <= 2,
        vs.len() == 4 - pad,
        forall|k: int| 0 <= k < vs.len() ==> #[trigger] vs[k] < 64 && cs[k] == symbol(vs[k]),
        forall|k: int| 4 - pad <= k < 4 ==> cs[k] == '=',
    ensures
        is_ascii_chars(cs),
        sextets(encode_utf8(cs)) == Some(vs),
{
    assert forall|k: int| 0 <= k < vs.len() implies #[trigger] sextet_value(symbol(vs[k]) as u8) == Some(vs[k])
        && symbol(vs[k]) as u8 != 61 && '\0' <= symbol(vs[k]) <= '\u{7f}' by {
        lemma_symbol_value(vs[k]);
    }
    assert forall|k: int| 0 <= k < 4 implies '\0' <= #[trigger] cs[k] <= '\u{7f}' by {
        if k < vs.len() {
            lemma_symbol_value(vs[k]);
        }
    }
    assert(is_ascii_chars(cs));
    lemma_encode_ascii(cs);
    let bs = encode_utf8(cs);
    assert(bs.len() == 4);
    assert forall|k: int| 0 <= k < vs.len() implies #[trigger] bs[k] == symbol(vs[k]) as u8 by {}
    assert forall|k: int| vs.len() <= k < 4 implies #[trigger] bs[k] == 61u8 by {}
    assert forall|k: int| 0 <= k < 4 implies #[trigger] bs.take(k + 1).drop_last() == bs.take(k)
        && bs.take(k + 1).last() == bs[k] by {
        assert(bs.take(k + 1).drop_last() =~= bs.take(k));
    }
    assert(bs.take(0) =~= Seq::<u8>::empty());
    assert(sextets(bs.take(0)) == Some(Seq::<u8>::empty()));
    assert(Seq::<u8>::empty().push(vs[0]) =~= vs.take(1));
    assert(sextets(bs.take(1)) == Some(vs.take(1)));
    assert(vs.take(1).push(vs[1]) =~= vs.take(2));
    assert(sextets(bs.take(2)) == Some(vs.take(2)));
    if pad == 2 {
        assert(bs[2] == 61u8 && bs[3] == 61u8);
        assert(bs.take(3).last() == 61u8 && bs.take(3).drop_last() =~= bs.take(2));
        assert(bs.take(4).last() == 61u8 && bs.take(4).drop_last() =~= bs.take(3));
        assert(sextets(bs.take(3)) == Some(vs.take(2)));
        assert(sextets(bs.take(4)) == Some(vs.take(2)));
    } else {
        assert(vs.take(2).push(vs[2]) =~= vs.take(3));
        assert(sextets(bs.take(3)) == Some(vs.take(3)));
        if pad == 1 {
            assert(bs[3] == 61u8);
            assert(bs.take(4).last() == 61u8 && bs.take(4).drop_last() =~= bs.take(3));
            assert(sextets(bs.take(4)) == Some(vs.take(3)));
        } else {
            assert(vs.take(3).push(vs[3]) =~= vs.take(4));
            assert(sextets(bs.take(4)) == Some(vs.take(4)));
        }
    }
    assert(bs.take(4) =~= bs);
    assert(vs.take(vs.len() as int) =~= vs);
}

/// Packing the values of one group.
proof fn lemma_pack_group(v0: u8, v1: u8, v2: u8, v3: u8)
    ensures
        pack(seq![v0, v1]) == seq![(v0 << 2) | (v1 >> 4)],
        pack(seq![v0, v1, v2]) == seq![(v0 << 2) | (v1 >> 4), ((v1 & 15) << 4) | (v2 >> 2)],
        pack(seq![v0, v1, v2, v3]) == seq![
            (v0 << 2) | (v1 >> 4),
            ((v1 & 15) << 4) | (v2 >> 2),
            ((v2 & 3) << 6) | v3,
        ],
{
    assert(seq![v0].drop_last() =~= Seq::<u8>::empty());
    assert(pack(Seq::<u8>::empty()) =~= Seq::<u8>::empty());
    assert(pack(seq![v0]) =~= Seq::<u8>::empty());
    assert(seq![v0, v1].drop_last() =~= seq![v0]);
    assert(pack(seq![v0, v1]) =~= seq![(v0 << 2) | (v1 >> 4)]);
    assert(seq![v0, v1, v2].drop_last() =~= seq![v0, v1]);
    assert(pack(seq![v0, v1, v2]) =~= seq![(v0 << 2) | (v1 >> 4), ((v1 & 15) << 4) | (v2 >> 2)]);
    assert(seq![v0, v1, v2, v3].drop_last() =~= seq![v0, v1, v2]);
    assert(pack(seq![v0, v1, v2, v3]) =~= seq![
        (v0 << 2) | (v1 >> 4),
        ((v1 & 15) << 4) | (v2 >> 2),
        ((v2 & 3) << 6) | v3,
    ]);
}

/// Decoding what [`b64`] writes gives back the bytes that were encoded.
pub proof fn lemma_base64_round_trip(b: Seq<u8>)
    ensures
        decode_spec(encode_utf8(encode_spec(b))) == Some(b),
    decreases b.len(),
{
    let e = encode_spec(b);
    if b.len() == 0 {
        assert(encode_utf8(e) =~= Seq::<u8>::empty());
        assert(sextets(encode_utf8(e)) == Some(Seq::<u8>::empty()));
        assert(pack(Seq::<u8>::empty()) =~= b);
    } else {
        let b0 = b[0];
        let b1 = if b.len() > 1 { b[1] } else { 0u8 };
        let b2 = if b.len() > 2 { b[2] } else { 0u8 };
        let v0 = b0 >> 2;
        let v1 = if b.len() > 1 { ((b0 & 3) << 4) | (b1 >> 4) } else { (b0 & 3) << 4 };
        let v2 = if b.len() > 2 { ((b1 & 15) << 2) | (b2 >> 6) } else { (b1 & 15) << 2 };
        let v3 = b2 & 63;
        assert(v0 < 64 && v1 < 64 && v2 < 64 && v3 < 64) by (bit_vector)
            requires
                v0 == b0 >> 2,
                v1 == ((b0 & 3) << 4) | (b1 >> 4) || v1 == (b0 & 3) << 4,
                v2 == ((b1 & 15) << 2) | (b2 >> 6) || v2 == (b1 & 15) << 2,
                v3 == b2 & 63,
        ;
        assert(((v0 << 2) | (v1 >> 4)) == b0) by (bit_vector)
            requires
                v0 == b0 >> 2,
                v1 == ((b0 & 3) << 4) | (b1 >> 4) || v1 == (b0 & 3) << 4,
        ;
        let g = e.take(4);
        if b.len() == 1 {
            let vs = seq![v0, v1];
            assert(g =~= e);
            lemma_sextets_group(g, vs, 2);
            lemma_pack_group(v0, v1, v2, v3);
            assert(pack(vs) =~= b);
        } else if b.len() == 2 {
            assert(((v1 & 15) << 4) | (v2 >> 2) == b1) by (bit_vector)
                requires
                    v1 == ((b0 & 3) << 4) | (b1 >> 4),
                    v2 == (b1 & 15) << 2,
            ;
            let vs = seq![v0, v1, v2];
            assert(g =~= e);
            lemma_sextets_group(g, vs, 1);
            lemma_pack_group(v0, v1, v2, v3);
            assert(pack(vs) =~= b);
        } else {
            assert(((v1 & 15) << 4) | (v2 >> 2) == b1 && ((v2 & 3) << 6) | v3 == b2)
                by (bit_vector)
                requires
                    v1 == ((b0 & 3) << 4) | (b1 >> 4),
                    v2 == ((b1 & 15) << 2) | (b2 >> 6),
                    v3 == b2 & 63,
            ;
            let vs = seq![v0, v1, v2, v3];
            let rest = encode_spec(b.skip(3));
            assert(e =~= g + rest);
            lemma_sextets_group(g, vs, 0);
            lemma_encode_utf8_concat(g, rest);
            lemma_base64_round_trip(b.skip(3));
            lemma_sextets_concat(encode_utf8(g), encode_utf8(rest));
            lemma_pack_concat(vs, sextets(encode_utf8(rest))->0);
            lemma_pack_group(v0, v1, v2, v3);
            assert(pack(vs) =~= b.take(3));
            assert(b.take(3) + b.skip(3) =~= b);
        }
    }
}

} // verus!
