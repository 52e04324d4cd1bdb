//! A verified UTF-16 codec.
//!
//! The string handles of the automation layer carry UTF-16 code units, while the
//! value bridge exposes text as Rust strings.  This module gives the encoding and
//! the lossy decoding (unpaired surrogates become U+FFFD) both as specification
//! functions and as executable functions proved against them, together with the
//! round-trip law that decoding an encoded string reproduces it exactly.

use vstd::prelude::*;

verus! {

use vstd::utf8::char_is_scalar;
use vstd::utf8::char_u32_cast;
use vstd::utf8::is_scalar;

/// True for the high half of a surrogate pair.
pub open spec fn is_high_surrogate(u: u16) -> bool {
    0xD800 <= u <= 0xDBFF
}

/// True for the low half of a surrogate pair.
pub open spec fn is_low_surrogate(u: u16) -> bool {
    0xDC00 <= u <= 0xDFFF
}

/// True for any code unit reserved for surrogates.
pub open spec fn is_surrogate(u: u16) -> bool {
    0xD800 <= u <= 0xDFFF
}

/// The character denoted by a surrogate pair.
pub open spec fn combine_surrogates(h: u16, l: u16) -> char
    recommends
        is_high_surrogate(h),
        is_low_surrogate(l),
{
    ((0x10000 + (h - 0xD800) * 0x400 + (l - 0xDC00)) as u32) as char
}

/// The UTF-16 encoding of one character: one code unit for the basic plane,
/// a surrogate pair for the rest.
pub open spec fn enc_char(c: char) -> Seq<u16> {
    let v = c as u32;
    if v < 0x10000 {
        seq![v as u16]
    } else {
        seq![
            (0xD800 + (v - 0x10000) / 0x400) as u16,
            (0xDC00 + (v - 0x10000) % 0x400) as u16,
        ]
    }
}

/// The UTF-16 encoding of a character sequence.
pub open spec fn encode16(s: Seq<char>) -> Seq<u16>
    decreases s.len(),
{
    if s.len() == 0 {
        Seq::empty()
    } else {
        enc_char(s[0]) + encode16(s.drop_first())
    }
}

/// The lossy decoding of a UTF-16 code unit sequence: surrogate pairs are
/// combined, unpaired surrogates each become U+FFFD, and every other unit is
/// the character with its value.
pub open spec fn decode16(u: Seq<u16>) -> Seq<char>
    decreases u.len(),
{
    if u.len() == 0 {
        Seq::empty()
    } else if is_high_surrogate(u[0]) && u.len() >= 2 && is_low_surrogate(u[1]) {
        seq![combine_surrogates(u[0], u[1])] + decode16(u.skip(2))
    } else if is_surrogate(u[0]) {
        seq!['\u{FFFD}'] + decode16(u.skip(1))
    } else {
        seq![((u[0] as u32) as char)] + decode16(u.skip(1))
    }
}

/// Decoding undoes the encoding of a single character put in front of any tail.
proof fn lemma_decode_enc_char(c: char, rest: Seq<u16>)
    ensures
        decode16(enc_char(c) + rest) == seq![c] + decode16(rest),
{
    char_is_scalar(c);
    let v = c as u32;
    let u = enc_char(c) + rest;
    if v < 0x10000 {
        assert(!is_surrogate(u[0]));
        assert((u[0] as u32) == v);
        char_u32_cast(c, v);
        assert(u.skip(1) =~= rest);
        assert(decode16(u) =~= seq![c] + decode16(rest));
    } else {
        let h = (0xD800 + (v - 0x10000) / 0x400) as u16;
        let l = (0xDC00 + (v - 0x10000) % 0x400) as u16;
        assert((v - 0x10000) / 0x400 <= 0x3FF && 0 <= (v - 0x10000) / 0x400) by {
            assert(v - 0x10000 <= 0xFFFFF);
            assert((v - 0x10000) as int / 0x400 <= 0xFFFFFint / 0x400) by {
                vstd::arithmetic::div_mod::lemma_div_is_ordered(
                    (v - 0x10000) as int,
                    0xFFFFF,
                    0x400,
                );
            }
        }
        assert(is_high_surrogate(h));
        assert(is_low_surrogate(l));
        assert(u[0] == h && u[1] == l);
        assert((h - 0xD800) * 0x400 + (l - 0xDC00) == v - 0x10000) by {
            vstd::arithmetic::div_mod::lemma_fundamental_div_mod((v - 0x10000) as int, 0x400);
        }
        assert(((0x10000 + (h - 0xD800) * 0x400 + (l - 0xDC00)) as u32) == v);
        char_u32_cast(c, v);
        assert(combine_surrogates(h, l) == c);
        assert(u.skip(2) =~= rest);
        assert(decode16(u) =~= seq![c] + decode16(rest));
    }
}

/// Lossy decoding undoes encoding exactly: no character sequence is changed by a
/// round trip through its UTF-16 form.
pub proof fn lemma_utf16_round_trip(s: Seq<char>)
    ensures
        decode16(encode16(s)) == s,
    decreases s.len(),
{
    if s.len() == 0 {
    } else {
        lemma_decode_enc_char(s[0], encode16(s.drop_first()));
        lemma_utf16_round_trip(s.drop_first());
        assert(decode16(encode16(s)) =~= s);
    }
}

/// Two character sequences with the same UTF-16 encoding are the same sequence.
pub proof fn lemma_encode16_injective(a: Seq<char>, b: Seq<char>)
    requires
        encode16(a) == encode16(b),
    ensures
        a == b,
{
    lemma_utf16_round_trip(a);
    lemma_utf16_round_trip(b);
}

/// Encoding distributes over concatenation.
pub proof fn lemma_encode16_append(a: Seq<char>, b: Seq<char>)
    ensures
        encode16(a + b) == encode16(a) + encode16(b),
    decreases a.len(),
{
    if a.len() == 0 {
        assert(a + b =~= b);
        assert(encode16(a) + encode16(b) =~= encode16(b));
    } else {
        assert((a + b).drop_first() =~= a.drop_first() + b);
        lemma_encode16_append(a.drop_first(), b);
        assert(encode16(a + b) =~= encode16(a) + encode16(b));
    }
}

/// Encoding a sequence extended by one character appends that character's encoding.
pub proof fn lemma_encode16_push(s: Seq<char>, c: char)
    ensures
        encode16(s.push(c)) == encode16(s) + enc_char(c),
{
    assert(s.push(c) =~= s + seq![c]);
    lemma_encode16_append(s, seq![c]);
    assert(seq![c].drop_first() =~= Seq::<char>::empty());
    assert(encode16(seq![c]) == enc_char(c) + encode16(Seq::<char>::empty()));
    assert(enc_char(c) + Seq::<u16>::empty() =~= enc_char(c));
}

/// The encoding of a sequence free of NUL characters contains no zero code unit,
/// and the NUL character encodes as the single zero unit.
pub proof fn lemma_encode16_zero_free(s: Seq<char>)
    requires
        !s.contains('\u{0000}'),
    ensures
        !encode16(s).contains(0u16),
    decreases s.len(),
{
    if s.len() == 0 {
        assert(!encode16(s).contains(0u16));
    } else {
        let c = s[0];
        char_is_scalar(c);
        assert(c != '\u{0000}');
        assert(c as u32 != 0) by {
            if c as u32 == 0 {
                char_u32_cast(c, 0u32);
                char_u32_cast('\u{0000}', '\u{0000}' as u32);
            }
        }
        assert(!enc_char(c).contains(0u16)) by {
            let v = c as u32;
            if v < 0x10000 {
                assert(enc_char(c)[0] == v as u16);
                assert(forall|i: int| 0 <= i < enc_char(c).len() ==> enc_char(c)[i] != 0u16);
            } else {
                assert(forall|i: int| 0 <= i < enc_char(c).len() ==> enc_char(c)[i] != 0u16);
            }
        }
        assert(!s.drop_first().contains('\u{0000}')) by {
            assert(forall|i: int|
                0 <= i < s.drop_first().len() ==> s.drop_first()[i] == s[i + 1]);
        }
        lemma_encode16_zero_free(s.drop_first());
        assert(forall|i: int| 0 <= i < encode16(s).len() ==> encode16(s)[i] != 0u16) by {
            assert(forall|i: int|
                0 <= i < encode16(s).len() ==> encode16(s)[i] == if i < enc_char(c).len() {
                    enc_char(c)[i]
                } else {
                    encode16(s.drop_first())[i - enc_char(c).len()]
                });
        }
    }
}

/// Relies on char::from_u32: for a Unicode scalar value it returns the character
/// with exactly that value, and every such value is accepted.
#[verifier::external_body]
fn char_from_u32(v: u32) -> (r: char)
    requires
        is_scalar(v),
    ensures
        r as u32 == v,
{
    char::from_u32(v).unwrap()
}

/// Relies on String::push: it appends the given character at the end.
#[verifier::external_body]
fn string_push(s: &mut String, c: char)
    ensures
        final(s)@ == old(s)@.push(c),
{
    s.push(c);
}

/// Appends the UTF-16 encoding of one character to a code unit buffer.
fn push_enc_char(out: &mut Vec<u16>, c: char)
    ensures
        final(out)@ == old(out)@ + enc_char(c),
{
    proof {
        char_is_scalar(c);
    }
    let v = c as u32;
    if v < 0x10000 {
        out.push(v as u16);
        assert(final(out)@ =~= old(out)@ + enc_char(c));
    } else {
        let h = 0xD800 + (v - 0x10000) / 0x400;
        let l = 0xDC00 + (v - 0x10000) % 0x400;
        assert((v - 0x10000) / 0x400 <= 0x3FF) by {
            vstd::arithmetic::div_mod::lemma_div_is_ordered((v - 0x10000) as int, 0xFFFFF, 0x400);
        }
        out.push(h as u16);
        out.push(l as u16);
        assert(final(out)@ =~= old(out)@ + enc_char(c));
    }
}

/// Encodes a string to its UTF-16 code unit sequence.
pub fn string_to_utf16(s: &str) -> (r: Vec<u16>)
    ensures
        r@ == encode16(s@),
{
    let n = s.unicode_len();
    let mut out: Vec<u16> = Vec::new();
    let mut i: usize = 0;
    while i < n
        invariant
            i <= n,
            n == s@.len(),
            out@ == encode16(s@.take(i as int)),
        decreases n - i,
    {
        let c = s.get_char(i);
        push_enc_char(&mut out, c);
        proof {
            assert(s@.take(i + 1) =~= s@.take(i as int).push(s@[i as int]));
            lemma_encode16_push(s@.take(i as int), s@[i as int]);
        }
        i = i + 1;
    }
    proof {
        assert(s@.take(n as int) =~= s@);
    }
    out
}

/// Decodes a UTF-16 code unit sequence to a string, replacing unpaired
/// surrogates with U+FFFD.
pub fn utf16_to_string_lossy(u: &Vec<u16>) -> (r: String)
    ensures
        r@ == decode16(u@),
{
    let n = u.len();
    let mut out = String::new();
    let mut i: usize = 0;
    proof {
        assert(u@.skip(0) =~= u@);
        assert(out@ + decode16(u@) =~= decode16(u@));
    }
    while i < n
        invariant
            i <= n,
            n == u@.len(),
            out@ + decode16(u@.skip(i as int)) == decode16(u@),
        decreases n - i,
    {
        let unit = u[i];
        let ghost tail = u@.skip(i as int);
        if 0xD800 <= unit && unit <= 0xDBFF && i + 1 < n && 0xDC00 <= u[i + 1]
            && u[i + 1] <= 0xDFFF {
            let low = u[i + 1];
            let v = 0x10000 + (unit as u32 - 0xD800) * 0x400 + (low as u32 - 0xDC00);
            assert(is_scalar(v));
            let c = char_from_u32(v);
            proof {
                char_u32_cast(c, v);
                assert(tail[0] == unit && tail[1] == low);
                assert(combine_surrogates(unit, low) == c);
                assert(tail.skip(2) =~= u@.skip(i + 2));
                assert(decode16(tail) == seq![c] + decode16(u@.skip(i + 2)));
            }
            string_push(&mut out, c);
            proof {
                assert(out@ + decode16(u@.skip(i + 2)) =~= decode16(u@));
            }
            i = i + 2;
        } else if 0xD800 <= unit && unit <= 0xDFFF {
            let c = '\u{FFFD}';
            proof {
                assert(tail[0] == unit);
                assert(!(is_high_surrogate(tail[0]) && tail.len() >= 2 && is_low_surrogate(
                    tail[1],
                )));
                assert(tail.skip(1) =~= u@.skip(i + 1));
                assert(decode16(tail) == seq![c] + decode16(u@.skip(i + 1)));
            }
            string_push(&mut out, c);
            proof {
                assert(out@ + decode16(u@.skip(i + 1)) =~= decode16(u@));
            }
            i = i + 1;
        } else {
            let v = unit as u32;
            assert(is_scalar(v));
            let c = char_from_u32(v);
            proof {
                char_u32_cast(c, v);
                assert(tail[0] == unit);
                assert(!is_surrogate(tail[0]));
                assert(tail.skip(1) =~= u@.skip(i + 1));
                assert(decode16(tail) == seq![c] + decode16(u@.skip(i + 1)));
            }
            string_push(&mut out, c);
            proof {
                assert(out@ + decode16(u@.skip(i + 1)) =~= decode16(u@));
            }
            i = i + 1;
        }
    }
    proof {
        assert(u@.skip(n as int) =~= Seq::<u16>::empty());
    }
    out
}

} // verus!
