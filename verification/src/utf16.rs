//! UTF-16 as the GPT stores partition names: the encoding of a `char` sequence,
//! the lossy and the strict decodings, and the fact that decoding undoes encoding.
use vstd::prelude::*;

verus! {

/// A high (leading) surrogate code unit.
pub open spec fn is_high_surrogate(u: u16) -> bool {
    0xD800 <= u <= 0xDBFF
}

/// A low (trailing) surrogate code unit.
pub open spec fn is_low_surrogate(u: u16) -> bool {
    0xDC00 <= u <= 0xDFFF
}

/// Any surrogate code unit.
pub open spec fn is_surrogate(u: u16) -> bool {
    0xD800 <= u <= 0xDFFF
}

/// The scalar value of a surrogate pair.
pub open spec fn pair_value(hi: u16, lo: u16) -> u32 {
    (((((hi - 0xD800) as u32) << 10u32) | ((lo - 0xDC00) as u32)) + 0x10000) as u32
}

/// The UTF-16 code units of one `char`.
pub open spec fn encode_char_utf16(c: char) -> Seq<u16> {
    let v = c as u32;
    if v < 0x10000 {
        seq![v as u16]
    } else {
        let w = (v - 0x10000) as u32;
        seq![(0xD800 + (w >> 10u32)) as u16, (0xDC00 + (w & 0x3FFu32)) as u16]
    }
}

/// The UTF-16 code units of a `char` sequence.
pub open spec fn encode_utf16(s: Seq<char>) -> Seq<u16>
    decreases s.len(),
{
    if s.len() == 0 {
        Seq::empty()
    } else {
        encode_char_utf16(s[0]) + encode_utf16(s.drop_first())
    }
}

/// Decoding that replaces each unpaired surrogate with U+FFFD.
pub open spec fn decode_utf16_lossy(u: Seq<u16>) -> Seq<char>
    decreases u.len(),
{
    if u.len() == 0 {
        Seq::empty()
    } else if !is_surrogate(u[0]) {
        seq![(u[0] as u32) as char] + decode_utf16_lossy(u.drop_first())
    } else if is_high_surrogate(u[0]) && u.len() >= 2 && is_low_surrogate(u[1]) {
        seq![pair_value(u[0], u[1]) as char] + decode_utf16_lossy(u.subrange(2, u.len() as int))
    } else {
        seq!['\u{FFFD}'] + decode_utf16_lossy(u.drop_first())
    }
}

/// Decoding that fails (`None`) on any unpaired surrogate.
pub open spec fn decode_utf16_strict(u: Seq<u16>) -> Option<Seq<char>>
    decreases u.len(),
{
    if u.len() == 0 {
        Some(Seq::empty())
    } else if !is_surrogate(u[0]) {
        match decode_utf16_strict(u.drop_first()) {
            Some(rest) => Some(seq![(u[0] as u32) as char] + rest),
            None => None,
        }
    } else if is_high_surrogate(u[0]) && u.len() >= 2 && is_low_surrogate(u[1]) {
        match decode_utf16_strict(u.subrange(2, u.len() as int)) {
            Some(rest) => Some(seq![pair_value(u[0], u[1]) as char] + rest),
            None => None,
        }
    } else {
        None
    }
}

/// Encoding distributes over concatenation.
pub proof fn lemma_encode_concat(a: Seq<char>, b: Seq<char>)
    ensures
        encode_utf16(a + b) == encode_utf16(a) + encode_utf16(b),
    decreases a.len(),
{
    if a.len() == 0 {
        assert(a + b =~= b);
    } else {
        assert((a + b).drop_first() =~= a.drop_first() + b);
        lemma_encode_concat(a.drop_first(), b);
        assert(encode_utf16(a + b) =~= encode_utf16(a) + encode_utf16(b));
    }
}

/// The scalar value of a `char` is at most 0x10FFFF and is no surrogate.
pub proof fn lemma_char_range(c: char)
    ensures
        (c as u32) <= 0x10FFFF,
        !(0xD800 <= (c as u32) <= 0xDFFF),
{
}

/// A `char`'s units decode back to it, in front of any further units.
proof fn lemma_decode_char(c: char, rest: Seq<u16>)
    ensures
        decode_utf16_lossy(encode_char_utf16(c) + rest) == seq![c] + decode_utf16_lossy(rest),
        decode_utf16_strict(encode_char_utf16(c) + rest) == match decode_utf16_strict(rest) {
            Some(r) => Some(seq![c] + r),
            None => None::<Seq<char>>,
        },
{
    let v = c as u32;
    let e = encode_char_utf16(c);
    let u = e + rest;
    if v < 0x10000 {
        assert(!(0xD800 <= v <= 0xDFFF));
        assert(u[0] == v as u16);
        assert(!is_surrogate(u[0]));
        assert(u.drop_first() =~= rest);
        assert(((v as u16) as u32) == v);
        assert(((v as u16) as u32) as char == c);
    } else {
        let w = (v - 0x10000) as u32;
        assert(v <= 0x10FFFF);
        let hi = (0xD800 + (w >> 10u32)) as u16;
        let lo = (0xDC00 + (w & 0x3FFu32)) as u16;
        assert(w < 0x100000 ==> (w >> 10u32) < 0x400 && (w & 0x3FFu32) < 0x400
            && ((((w >> 10u32) as u32) << 10u32) | (w & 0x3FFu32)) == w) by (bit_vector);
        assert(u[0] == hi && u[1] == lo);
        assert(is_high_surrogate(hi) && is_low_surrogate(lo));
        assert(pair_value(hi, lo) == v);
        assert(u.subrange(2, u.len() as int) =~= rest);
    }
}

/// Lossy decoding undoes encoding.
pub proof fn lemma_decode_encode(s: Seq<char>)
    ensures
        decode_utf16_lossy(encode_utf16(s)) == s,
        decode_utf16_strict(encode_utf16(s)) == Some(s),
    decreases s.len(),
{
    if s.len() == 0 {
    } else {
        lemma_decode_encode(s.drop_first());
        lemma_decode_char(s[0], encode_utf16(s.drop_first()));
        assert(seq![s[0]] + s.drop_first() =~= s);
    }
}

/// No unit of the encoding is zero when no `char` is NUL.
pub proof fn lemma_encode_no_zero(s: Seq<char>)
    requires
        forall|i: int| 0 <= i < s.len() ==> (s[i] as u32) != 0,
    ensures
        forall|i: int| 0 <= i < encode_utf16(s).len() ==> encode_utf16(s)[i] != 0,
    decreases s.len(),
{
    if s.len() > 0 {
        lemma_encode_no_zero(s.drop_first());
        let c = s[0];
        let v = c as u32;
        lemma_char_range(c);
        assert(v != 0);
        let e = encode_char_utf16(c);
        if v >= 0x10000 {
            let w = (v - 0x10000) as u32;
            assert(v <= 0x10FFFF);
            assert(w < 0x100000);
            assert(w < 0x100000 ==> (w >> 10u32) < 0x400) by (bit_vector);
            assert((w & 0x3FFu32) <= 0x3FF) by (bit_vector);
            assert(e[0] == (0xD800 + (w >> 10u32)) as u16);
            assert(e[0] >= 0xD800);
            assert(e[1] >= 0xDC00);
        } else {
            assert((v as u16) != 0);
            assert(e[0] != 0);
        }
        let r = encode_utf16(s.drop_first());
        assert forall|i: int| 0 <= i < (e + r).len() implies (e + r)[i] != 0 by {
            if i >= e.len() {
                assert((e + r)[i] == r[i - e.len()]);
            }
        }
    }
}

/// The UTF-16 encoding of a string (`str::encode_utf16`, collected).
#[verifier::external_body]
pub(crate) fn encode_str_utf16(s: &str) -> (units: Vec<u16>)
    ensures
        units@ == encode_utf16(s@),
{
    s.encode_utf16().collect()
}

/// `String::from_utf16_lossy`: decodes `units`, each unpaired surrogate becoming U+FFFD.
#[verifier::external_body]
pub(crate) fn string_from_utf16_lossy(units: &[u16]) -> (s: String)
    ensures
        s@ == decode_utf16_lossy(units@),
{
    String::from_utf16_lossy(units)
}

} // verus!
