//! Verified UTF-8 decoding of byte sequences.
//!
//! [`utf8_lossy`] decodes a byte sequence the way `String::from_utf8_lossy`
//! does: each well-formed scalar encoding becomes its character, and each
//! maximal prefix of a well-formed encoding that cannot be completed is
//! replaced by one replacement character.  On valid UTF-8 it agrees with
//! vstd's `decode_utf8` ([`lemma_utf8_lossy_valid`]), so a validity check
//! plus the lossy decoder also give an exact model of `String::from_utf8`.

use vstd::prelude::*;
use vstd::utf8::*;

verus! {

/// True of a UTF-8 continuation byte (`10xxxxxx`).
pub open spec fn cont_byte(b: u8) -> bool {
    0x80 <= b && b <= 0xbf
}

/// The admissible second byte of a three-byte encoding led by `b0`: the
/// ranges exclude overlong encodings (for `0xe0`) and surrogates (for
/// `0xed`).
pub open spec fn second_ok_3(b0: u8, b1: u8) -> bool {
    if b0 == 0xe0 {
        0xa0 <= b1 && b1 <= 0xbf
    } else if b0 == 0xed {
        0x80 <= b1 && b1 <= 0x9f
    } else {
        cont_byte(b1)
    }
}

/// The admissible second byte of a four-byte encoding led by `b0`: the
/// ranges exclude overlong encodings (for `0xf0`) and values beyond
/// U+10FFFF (for `0xf4`).
pub open spec fn second_ok_4(b0: u8, b1: u8) -> bool {
    if b0 == 0xf0 {
        0x90 <= b1 && b1 <= 0xbf
    } else if b0 == 0xf4 {
        0x80 <= b1 && b1 <= 0x8f
    } else {
        cont_byte(b1)
    }
}

/// True when `s` begins with one complete, well-formed scalar encoding.
pub open spec fn utf8_step_ok(s: Seq<u8>) -> bool
    recommends
        s.len() > 0,
{
    let b0 = s[0];
    if b0 < 0x80 {
        true
    } else if 0xc2 <= b0 && b0 <= 0xdf {
        s.len() >= 2 && cont_byte(s[1])
    } else if 0xe0 <= b0 && b0 <= 0xef {
        s.len() >= 3 && second_ok_3(b0, s[1]) && cont_byte(s[2])
    } else if 0xf0 <= b0 && b0 <= 0xf4 {
        s.len() >= 4 && second_ok_4(b0, s[1]) && cont_byte(s[2]) && cont_byte(s[3])
    } else {
        false
    }
}

/// How many bytes the first decoding step consumes: the length of the
/// scalar encoding when one is complete, else the length of the maximal
/// well-formed prefix (at least one byte).
pub open spec fn utf8_step_len(s: Seq<u8>) -> int
    recommends
        s.len() > 0,
{
    let b0 = s[0];
    if b0 < 0x80 {
        1
    } else if 0xc2 <= b0 && b0 <= 0xdf {
        if s.len() >= 2 && cont_byte(s[1]) {
            2
        } else {
            1
        }
    } else if 0xe0 <= b0 && b0 <= 0xef {
        if s.len() >= 2 && second_ok_3(b0, s[1]) {
            if s.len() >= 3 && cont_byte(s[2]) {
                3
            } else {
                2
            }
        } else {
            1
        }
    } else if 0xf0 <= b0 && b0 <= 0xf4 {
        if s.len() >= 2 && second_ok_4(b0, s[1]) {
            if s.len() >= 3 && cont_byte(s[2]) {
                if s.len() >= 4 && cont_byte(s[3]) {
                    4
                } else {
                    3
                }
            } else {
                2
            }
        } else {
            1
        }
    } else {
        1
    }
}

/// The scalar value of the complete encoding at the head of `s`.
pub open spec fn utf8_step_val(s: Seq<u8>) -> u32
    recommends
        s.len() > 0,
        utf8_step_ok(s),
{
    let b0 = s[0];
    if b0 < 0x80 {
        codepoint_width_1(b0)
    } else if b0 <= 0xdf {
        codepoint_width_2(b0, s[1])
    } else if b0 <= 0xef {
        codepoint_width_3(b0, s[1], s[2])
    } else {
        codepoint_width_4(b0, s[1], s[2], s[3])
    }
}

/// The character produced by the first decoding step: the decoded
/// character when the head of `s` is a complete scalar encoding, and the
/// replacement character otherwise.
pub open spec fn utf8_step_char(s: Seq<u8>) -> char
    recommends
        s.len() > 0,
{
    if utf8_step_ok(s) {
        utf8_step_val(s) as char
    } else {
        '\u{fffd}'
    }
}

proof fn lemma_step_len_bounds(s: Seq<u8>)
    requires
        s.len() > 0,
    ensures
        1 <= utf8_step_len(s) <= s.len(),
{
}

/// The characters that `String::from_utf8_lossy` yields for `s`.
pub open spec fn utf8_lossy(s: Seq<u8>) -> Seq<char>
    decreases s.len(),
        when true
        via utf8_lossy_decreases
{
    if s.len() == 0 {
        seq![]
    } else {
        seq![utf8_step_char(s)] + utf8_lossy(s.subrange(utf8_step_len(s), s.len() as int))
    }
}

#[via_fn]
proof fn utf8_lossy_decreases(s: Seq<u8>) {
    if s.len() > 0 {
        lemma_step_len_bounds(s);
    }
}

/// True when every decoding step of `s` consumes a complete scalar
/// encoding.
pub open spec fn utf8_all_ok(s: Seq<u8>) -> bool
    decreases s.len(),
        when true
        via utf8_all_ok_decreases
{
    if s.len() == 0 {
        true
    } else {
        utf8_step_ok(s) && utf8_all_ok(s.subrange(utf8_step_len(s), s.len() as int))
    }
}

#[via_fn]
proof fn utf8_all_ok_decreases(s: Seq<u8>) {
    if s.len() > 0 {
        lemma_step_len_bounds(s);
    }
}

proof fn lemma_two_byte(b0: u8, b1: u8)
    by (bit_vector)
    requires
        0xc0 <= b0,
        b0 <= 0xdf,
        0x80 <= b1,
        b1 <= 0xbf,
    ensures
        codepoint_width_2(b0, b1) >= 0x80 <==> b0 >= 0xc2,
        codepoint_width_2(b0, b1) <= 0x7ff,
{
}

proof fn lemma_three_byte(b0: u8, b1: u8, b2: u8)
    by (bit_vector)
    requires
        0xe0 <= b0,
        b0 <= 0xef,
        0x80 <= b1,
        b1 <= 0xbf,
        0x80 <= b2,
        b2 <= 0xbf,
    ensures
        (codepoint_width_3(b0, b1, b2) >= 0x800 && !(0xd800 <= codepoint_width_3(b0, b1, b2)
            && codepoint_width_3(b0, b1, b2) <= 0xdfff)) <==> second_ok_3(b0, b1),
        codepoint_width_3(b0, b1, b2) <= 0xffff,
{
}

proof fn lemma_four_byte(b0: u8, b1: u8, b2: u8, b3: u8)
    by (bit_vector)
    requires
        0xf0 <= b0,
        b0 <= 0xf7,
        0x80 <= b1,
        b1 <= 0xbf,
        0x80 <= b2,
        b2 <= 0xbf,
        0x80 <= b3,
        b3 <= 0xbf,
    ensures
        (0x10000 <= codepoint_width_4(b0, b1, b2, b3) && codepoint_width_4(b0, b1, b2, b3)
            <= 0x10ffff) <==> (b0 <= 0xf4 && second_ok_4(b0, b1)),
{
}

proof fn lemma_one_byte(b0: u8)
    by (bit_vector)
    requires
        b0 < 0x80,
    ensures
        codepoint_width_1(b0) == b0,
{
}

/// One decoding step agrees with vstd's model of a single scalar: the
/// step consumes a complete encoding exactly when `s` begins with a valid
/// scalar, and then its length and value are that scalar's.
pub proof fn lemma_utf8_step(s: Seq<u8>)
    requires
        s.len() > 0,
    ensures
        utf8_step_ok(s) <==> valid_first_scalar(s),
        utf8_step_ok(s) ==> utf8_step_len(s) == length_of_first_scalar(s),
        utf8_step_ok(s) ==> utf8_step_val(s) == decode_first_scalar(s),
        utf8_step_ok(s) ==> is_scalar(utf8_step_val(s)),
{
    let b0 = s[0];
    if b0 < 0x80 {
        lemma_one_byte(b0);
    } else if 0xc0 <= b0 && b0 <= 0xdf {
        if s.len() >= 2 && cont_byte(s[1]) {
            lemma_two_byte(b0, s[1]);
        }
    } else if 0xe0 <= b0 && b0 <= 0xef {
        if s.len() >= 3 && cont_byte(s[1]) && cont_byte(s[2]) {
            lemma_three_byte(b0, s[1], s[2]);
        }
    } else if 0xf0 <= b0 && b0 <= 0xf7 {
        if s.len() >= 4 && cont_byte(s[1]) && cont_byte(s[2]) && cont_byte(s[3]) {
            lemma_four_byte(b0, s[1], s[2], s[3]);
        }
    }
}

/// Every decoding step consumes a complete encoding exactly when `s` is
/// valid UTF-8.
pub proof fn lemma_utf8_all_ok(s: Seq<u8>)
    ensures
        utf8_all_ok(s) <==> valid_utf8(s),
    decreases s.len(),
{
    if s.len() > 0 {
        lemma_utf8_step(s);
        lemma_step_len_bounds(s);
        if utf8_step_ok(s) {
            assert(s.subrange(utf8_step_len(s), s.len() as int) =~= pop_first_scalar(s));
            lemma_utf8_all_ok(s.subrange(utf8_step_len(s), s.len() as int));
        }
    }
}

/// On valid UTF-8 the lossy decoding is the exact decoding.
pub proof fn lemma_utf8_lossy_valid(s: Seq<u8>)
    requires
        valid_utf8(s),
    ensures
        utf8_lossy(s) == decode_utf8(s),
    decreases s.len(),
{
    if s.len() > 0 {
        lemma_utf8_step(s);
        lemma_step_len_bounds(s);
        assert(s.subrange(utf8_step_len(s), s.len() as int) =~= pop_first_scalar(s));
        lemma_utf8_lossy_valid(s.subrange(utf8_step_len(s), s.len() as int));
        assert(utf8_lossy(s) =~= decode_utf8(s));
    }
}

/// `char::from_u32` yields the character with scalar value `v` whenever
/// `v` is a Unicode scalar, and nothing otherwise.
pub assume_specification[ char::from_u32 ](v: u32) -> (r: Option<char>)
    ensures
        r is Some <==> (v < 0xd800 || (0xdfff < v && v <= 0x10ffff)),
        r is Some ==> r->0 as u32 == v,
;

/// One decoding step at position `i`: how many bytes it consumes, the
/// character it yields, and whether it consumed a complete encoding.
fn utf8_step(v: &Vec<u8>, i: usize) -> (r: (usize, char, bool))
    requires
        i < v@.len(),
    ensures
        ({
            let s = v@.subrange(i as int, v@.len() as int);
            &&& r.0 == utf8_step_len(s)
            &&& r.1 == utf8_step_char(s)
            &&& r.2 == utf8_step_ok(s)
            &&& i + r.0 <= v@.len()
        }),
{
    let ghost s = v@.subrange(i as int, v@.len() as int);
    proof {
        lemma_step_len_bounds(s);
        lemma_utf8_step(s);
    }
    let n = v.len();
    let b0 = v[i];
    if b0 < 0x80 {
        let c = char_of_scalar((b0 & 0x7f) as u32);
        (1, c, true)
    } else if 0xc2 <= b0 && b0 <= 0xdf {
        if n - i >= 2 && 0x80 <= v[i + 1] && v[i + 1] <= 0xbf {
            let val: u32 = (((b0 & 0x1f) as u32) << 6u32) | ((v[i + 1] & 0x3f) as u32);
            let c = char_of_scalar(val);
            (2, c, true)
        } else {
            (1, '\u{fffd}', false)
        }
    } else if 0xe0 <= b0 && b0 <= 0xef {
        let second_ok = n - i >= 2 && ({
            let b1 = v[i + 1];
            if b0 == 0xe0 {
                0xa0 <= b1 && b1 <= 0xbf
            } else if b0 == 0xed {
                0x80 <= b1 && b1 <= 0x9f
            } else {
                0x80 <= b1 && b1 <= 0xbf
            }
        });
        if second_ok {
            if n - i >= 3 && 0x80 <= v[i + 2] && v[i + 2] <= 0xbf {
                let val: u32 = (((b0 & 0x0f) as u32) << 12u32) | (((v[i + 1] & 0x3f) as u32)
                    << 6u32) | ((v[i + 2] & 0x3f) as u32);
                let c = char_of_scalar(val);
                (3, c, true)
            } else {
                (2, '\u{fffd}', false)
            }
        } else {
            (1, '\u{fffd}', false)
        }
    } else if 0xf0 <= b0 && b0 <= 0xf4 {
        let second_ok = n - i >= 2 && ({
            let b1 = v[i + 1];
            if b0 == 0xf0 {
                0x90 <= b1 && b1 <= 0xbf
            } else if b0 == 0xf4 {
                0x80 <= b1 && b1 <= 0x8f
            } else {
                0x80 <= b1 && b1 <= 0xbf
            }
        });
        if second_ok {
            if n - i >= 3 && 0x80 <= v[i + 2] && v[i + 2] <= 0xbf {
                if n - i >= 4 && 0x80 <= v[i + 3] && v[i + 3] <= 0xbf {
                    let val: u32 = (((b0 & 0x07) as u32) << 18u32) | (((v[i + 1] & 0x3f) as u32)
                        << 12u32) | (((v[i + 2] & 0x3f) as u32) << 6u32) | ((v[i + 3]
                        & 0x3f) as u32);
                    let c = char_of_scalar(val);
                    (4, c, true)
                } else {
                    (3, '\u{fffd}', false)
                }
            } else {
                (2, '\u{fffd}', false)
            }
        } else {
            (1, '\u{fffd}', false)
        }
    } else {
        (1, '\u{fffd}', false)
    }
}

/// The character with scalar value `v`.
fn char_of_scalar(v: u32) -> (c: char)
    requires
        is_scalar(v),
    ensures
        c == v as char,
{
    proof {
        assert(v < 0xd800 || (0xdfff < v && v <= 0x10ffff));
    }
    match char::from_u32(v) {
        Some(c) => {
            proof {
                vstd::utf8::char_u32_cast(c, v);
            }
            c
        },
        None => '\u{fffd}',
    }
}

/// Computes [`utf8_lossy`].
pub fn utf8_lossy_vec(v: &Vec<u8>) -> (r: Vec<char>)
    ensures
        r@ == utf8_lossy(v@),
{
    let mut r: Vec<char> = Vec::new();
    let mut i: usize = 0;
    proof {
        assert(v@.subrange(0, v@.len() as int) =~= v@);
    }
    while i < v.len()
        invariant
            i <= v@.len(),
            utf8_lossy(v@) =~= r@ + utf8_lossy(v@.subrange(i as int, v@.len() as int)),
        decreases v@.len() - i,
    {
        let ghost s = v@.subrange(i as int, v@.len() as int);
        let (step, c, _ok) = utf8_step(v, i);
        r.push(c);
        proof {
            lemma_step_len_bounds(s);
            assert(s.subrange(utf8_step_len(s), s.len() as int) =~= v@.subrange(
                i + step, v@.len() as int));
            assert(utf8_lossy(s) =~= seq![c] + utf8_lossy(v@.subrange(i + step, v@.len() as int)));
        }
        i = i + step;
        assert(utf8_lossy(v@) =~= r@ + utf8_lossy(v@.subrange(i as int, v@.len() as int)));
    }
    proof {
        assert(v@.subrange(v@.len() as int, v@.len() as int) =~= Seq::<u8>::empty());
        assert(utf8_lossy(v@) =~= r@);
    }
    r
}

/// Decides `valid_utf8`.
pub fn utf8_is_valid(v: &Vec<u8>) -> (r: bool)
    ensures
        r == valid_utf8(v@),
{
    proof {
        lemma_utf8_all_ok(v@);
    }
    let mut i: usize = 0;
    proof {
        assert(v@.subrange(0, v@.len() as int) =~= v@);
    }
    while i < v.len()
        invariant
            i <= v@.len(),
            utf8_all_ok(v@) == utf8_all_ok(v@.subrange(i as int, v@.len() as int)),
            utf8_all_ok(v@) == valid_utf8(v@),
        decreases v@.len() - i,
    {
        let ghost s = v@.subrange(i as int, v@.len() as int);
        let (step, _c, ok) = utf8_step(v, i);
        if !ok {
            return false;
        }
        proof {
            lemma_step_len_bounds(s);
            assert(s.subrange(utf8_step_len(s), s.len() as int) =~= v@.subrange(
                i + step, v@.len() as int));
        }
        i = i + step;
    }
    proof {
        assert(v@.subrange(v@.len() as int, v@.len() as int) =~= Seq::<u8>::empty());
    }
    true
}

} // verus!
