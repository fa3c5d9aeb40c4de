//! The URL codec: percent-encoding and percent-decoding.
//!
//! [`url_encode`] percent-encodes every byte of the UTF-8 form of its
//! input that is not unreserved (RFC 3986: letters, digits, `-`, `.`,
//! `_`, `~`), using uppercase hexadecimal digits.  [`url_decode`] maps
//! `+` to a space and `%XX` (hexadecimal digits of either case) to the
//! byte it names, passes a malformed escape through as a literal `%`,
//! and reads the resulting bytes as UTF-8 with the replacement character
//! for invalid sequences.  Decoding an encoded string gives the original
//! back ([`lemma_url_round_trip`]).

use vstd::prelude::*;
use vstd::utf8::{
    encode_utf8, is_ascii_chars, is_ascii_chars_encode_utf8, encode_utf8_valid_utf8,
    encode_utf8_decode_utf8,
};
use crate::text::chars::chars_to_string;
use crate::text::utf8::{utf8_lossy, utf8_lossy_vec, lemma_utf8_lossy_valid};

verus! {

/// True of the bytes that RFC 3986 never requires a URL component to
/// percent-encode: ASCII letters, digits, `-`, `.`, `_` and `~`.
pub open spec fn is_unreserved(b: u8) -> bool {
    ||| (0x41 <= b && b <= 0x5a)
    ||| (0x61 <= b && b <= 0x7a)
    ||| (0x30 <= b && b <= 0x39)
    ||| b == 0x2d
    ||| b == 0x2e
    ||| b == 0x5f
    ||| b == 0x7e
}

/// The uppercase hexadecimal digit character for a value below sixteen.
pub open spec fn hex_digit_char(d: nat) -> char
    recommends
        d < 16,
{
    if d < 10 {
        ((d + 48) as u8) as char
    } else {
        ((d + 55) as u8) as char
    }
}

/// The characters an encoded byte becomes: itself when unreserved, else
/// a `%` escape with two uppercase hexadecimal digits.
pub open spec fn percent_encode_byte(b: u8) -> Seq<char> {
    if is_unreserved(b) {
        seq![b as char]
    } else {
        seq!['%', hex_digit_char((b >> 4) as nat), hex_digit_char((b & 0x0f) as nat)]
    }
}

/// The percent-encoding of a byte sequence, byte by byte.
pub open spec fn percent_encode(bs: Seq<u8>) -> Seq<char>
    decreases bs.len(),
{
    if bs.len() == 0 {
        seq![]
    } else {
        percent_encode_byte(bs[0]) + percent_encode(bs.drop_first())
    }
}

/// What [`url_encode`] returns: the percent-encoding of the UTF-8 bytes
/// of `s`.
pub open spec fn spec_url_encode(s: Seq<char>) -> Seq<char> {
    percent_encode(encode_utf8(s))
}

/// The value of a hexadecimal digit byte of either case, or `-1` for any
/// other byte.
pub open spec fn hex_val(b: u8) -> int {
    if 0x30 <= b && b <= 0x39 {
        b - 0x30
    } else if 0x41 <= b && b <= 0x46 {
        b - 55
    } else if 0x61 <= b && b <= 0x66 {
        b - 87
    } else {
        -1
    }
}

/// True when `bs` begins with a complete, well-formed `%XX` escape.
pub open spec fn pd_escape_at(bs: Seq<u8>) -> bool
    recommends
        bs.len() > 0,
{
    bs[0] == 0x25 && bs.len() >= 3 && hex_val(bs[1]) >= 0 && hex_val(bs[2]) >= 0
}

/// How many input bytes the first decoding step consumes.
pub open spec fn pd_step_len(bs: Seq<u8>) -> int
    recommends
        bs.len() > 0,
{
    if pd_escape_at(bs) {
        3
    } else {
        1
    }
}

/// The byte the first decoding step emits: a space for `+`, the named
/// byte for a well-formed escape, and the input byte itself otherwise
/// (in particular the literal `%` of a malformed escape).
pub open spec fn pd_step_out(bs: Seq<u8>) -> u8
    recommends
        bs.len() > 0,
{
    if bs[0] == 0x2b {
        0x20
    } else if pd_escape_at(bs) {
        (hex_val(bs[1]) * 16 + hex_val(bs[2])) as u8
    } else {
        bs[0]
    }
}

/// The percent-decoding of a byte sequence.
pub open spec fn percent_decode(bs: Seq<u8>) -> Seq<u8>
    decreases bs.len(),
{
    if bs.len() == 0 {
        seq![]
    } else {
        seq![pd_step_out(bs)] + percent_decode(bs.subrange(pd_step_len(bs), bs.len() as int))
    }
}

/// What [`url_decode`] returns: the percent-decoded UTF-8 bytes of `s`,
/// read back as characters with the replacement character for invalid
/// sequences.
pub open spec fn spec_url_decode(s: Seq<char>) -> Seq<char> {
    utf8_lossy(percent_decode(encode_utf8(s)))
}

/// Computes [`hex_digit_char`].
fn hex_char(d: u8) -> (c: char)
    requires
        d < 16,
    ensures
        c == hex_digit_char(d as nat),
{
    if d < 10 {
        (d + 48) as char
    } else {
        (d + 55) as char
    }
}

/// Percent-encodes `s` as [`spec_url_encode`] describes.
pub fn url_encode(input: &str) -> (r: String)
    ensures
        r@ == spec_url_encode(input@),
{
    let bytes = input.as_bytes_vec();
    let mut out: Vec<char> = Vec::new();
    let mut i: usize = 0;
    proof {
        assert(bytes@.subrange(0, bytes@.len() as int) =~= bytes@);
    }
    while i < bytes.len()
        invariant
            i <= bytes@.len(),
            percent_encode(bytes@) =~= out@ + percent_encode(bytes@.subrange(
                i as int, bytes@.len() as int)),
        decreases bytes@.len() - i,
    {
        let ghost s = bytes@.subrange(i as int, bytes@.len() as int);
        let b = bytes[i];
        if (0x41 <= b && b <= 0x5a) || (0x61 <= b && b <= 0x7a) || (0x30 <= b && b <= 0x39)
            || b == 0x2d || b == 0x2e || b == 0x5f || b == 0x7e {
            out.push(b as char);
        } else {
            out.push('%');
            proof {
                assert(b >> 4 < 16 && b & 0x0f < 16) by (bit_vector);
            }
            out.push(hex_char(b >> 4));
            out.push(hex_char(b & 0x0f));
        }
        proof {
            assert(s.drop_first() =~= bytes@.subrange(i + 1, bytes@.len() as int));
            assert(percent_encode(s) =~= percent_encode_byte(bytes@[i as int]) + percent_encode(
                s.drop_first()));
        }
        i = i + 1;
        assert(percent_encode(bytes@) =~= out@ + percent_encode(bytes@.subrange(
            i as int, bytes@.len() as int)));
    }
    proof {
        assert(bytes@.subrange(bytes@.len() as int, bytes@.len() as int) =~= Seq::<u8>::empty());
        assert(out@ =~= percent_encode(bytes@));
    }
    chars_to_string(&out)
}

/// Computes [`hex_val`], with `None` standing for `-1`.
fn hex_val_of(b: u8) -> (r: Option<u8>)
    ensures
        match r {
            Some(d) => hex_val(b) == d,
            None => hex_val(b) == -1,
        },
{
    if 0x30 <= b && b <= 0x39 {
        Some(b - 0x30)
    } else if 0x41 <= b && b <= 0x46 {
        Some(b - 55)
    } else if 0x61 <= b && b <= 0x66 {
        Some(b - 87)
    } else {
        None
    }
}

/// Percent-decodes `s` as [`spec_url_decode`] describes.  Decoding never
/// fails; malformed escapes and invalid UTF-8 only lose fidelity.
pub fn url_decode(input: &str) -> (r: String)
    ensures
        r@ == spec_url_decode(input@),
{
    let bytes = input.as_bytes_vec();
    let mut out: Vec<u8> = Vec::new();
    let mut i: usize = 0;
    proof {
        assert(bytes@.subrange(0, bytes@.len() as int) =~= bytes@);
    }
    while i < bytes.len()
        invariant
            i <= bytes@.len(),
            percent_decode(bytes@) =~= out@ + percent_decode(bytes@.subrange(
                i as int, bytes@.len() as int)),
        decreases bytes@.len() - i,
    {
        let ghost s = bytes@.subrange(i as int, bytes@.len() as int);
        let b = bytes[i];
        let mut step: usize = 1;
        if b == 0x2b {
            out.push(0x20);
        } else if b == 0x25 && bytes.len() - i >= 3 {
            let hi = hex_val_of(bytes[i + 1]);
            let lo = hex_val_of(bytes[i + 2]);
            match (hi, lo) {
                (Some(h), Some(l)) => {
                    out.push(h * 16 + l);
                    step = 3;
                },
                _ => {
                    out.push(0x25);
                },
            }
        } else {
            out.push(b);
        }
        proof {
            assert(s.subrange(pd_step_len(s), s.len() as int) =~= bytes@.subrange(
                i + pd_step_len(s), bytes@.len() as int));
            assert(percent_decode(s) =~= seq![pd_step_out(s)] + percent_decode(s.subrange(
                pd_step_len(s), s.len() as int)));
            assert(step == pd_step_len(s));
        }
        i = i + step;
        assert(percent_decode(bytes@) =~= out@ + percent_decode(bytes@.subrange(
            i as int, bytes@.len() as int)));
    }
    proof {
        assert(bytes@.subrange(bytes@.len() as int, bytes@.len() as int) =~= Seq::<u8>::empty());
        assert(out@ =~= percent_decode(bytes@));
    }
    let chars = utf8_lossy_vec(&out);
    chars_to_string(&chars)
}

/// The bytes of an ASCII character sequence, character by character.
pub open spec fn ascii_bytes(cs: Seq<char>) -> Seq<u8> {
    Seq::new(cs.len(), |i: int| cs[i] as u8)
}

/// Every encoded byte becomes ASCII characters.
proof fn lemma_percent_encode_ascii(bs: Seq<u8>)
    ensures
        is_ascii_chars(percent_encode(bs)),
    decreases bs.len(),
{
    if bs.len() > 0 {
        lemma_percent_encode_ascii(bs.drop_first());
        assert forall|i: int| 0 <= i < percent_encode(bs).len() implies '\0'
            <= #[trigger] percent_encode(bs)[i] <= '\u{7f}' by {
            let b = bs[0];
            let head = percent_encode_byte(b);
            assert(b >> 4 < 16 && b & 0x0f < 16) by (bit_vector);
            if i >= head.len() {
                assert(percent_encode(bs)[i] == percent_encode(bs.drop_first())[i - head.len()]);
            } else {
                assert(percent_encode(bs)[i] == head[i]);
            }
        }
    }
}

proof fn lemma_hex_digit_byte(d: nat)
    requires
        d < 16,
    ensures
        hex_digit_char(d) as u8 as int >= 0,
        hex_val(hex_digit_char(d) as u8) == d,
        !is_unreserved(0x25),
        !(0x25u8 == 0x2b),
{
}

/// Decoding the encoding of a byte sequence gives the sequence back.
proof fn lemma_pd_of_pe(bs: Seq<u8>)
    ensures
        percent_decode(ascii_bytes(percent_encode(bs))) =~= bs,
    decreases bs.len(),
{
    if bs.len() == 0 {
        assert(percent_encode(bs) =~= Seq::<char>::empty());
        assert(ascii_bytes(percent_encode(bs)) =~= Seq::<u8>::empty());
    } else {
        let b = bs[0];
        let head = percent_encode_byte(b);
        let t = ascii_bytes(percent_encode(bs));
        assert(percent_encode(bs) == head + percent_encode(bs.drop_first()));
        lemma_pd_of_pe(bs.drop_first());
        if is_unreserved(b) {
            assert(t[0] == b);
            assert(b != 0x25 && b != 0x2b);
            assert(pd_step_len(t) == 1 && pd_step_out(t) == b);
            assert(t.subrange(1, t.len() as int) =~= ascii_bytes(percent_encode(bs.drop_first())));
            assert(percent_decode(t) =~= bs);
        } else {
            let hi = (b >> 4) as nat;
            let lo = (b & 0x0f) as nat;
            assert(b >> 4 < 16 && b & 0x0f < 16 && (b >> 4) * 16 + (b & 0x0f) == b)
                by (bit_vector);
            lemma_hex_digit_byte(hi);
            lemma_hex_digit_byte(lo);
            assert(t[0] == 0x25 && t[1] == hex_digit_char(hi) as u8 && t[2] == hex_digit_char(
                lo) as u8);
            assert(pd_escape_at(t));
            assert(pd_step_out(t) == b);
            assert(t.subrange(3, t.len() as int) =~= ascii_bytes(percent_encode(bs.drop_first())));
            assert(percent_decode(t) =~= bs);
        }
    }
}

/// Decoding an encoded string gives the original back: for every string
/// `s`, `url_decode(url_encode(s)) == s`.
pub proof fn lemma_url_round_trip(s: Seq<char>)
    ensures
        spec_url_decode(spec_url_encode(s)) == s,
{
    let bs = encode_utf8(s);
    let enc = percent_encode(bs);
    lemma_percent_encode_ascii(bs);
    is_ascii_chars_encode_utf8(enc);
    assert(encode_utf8(enc) =~= ascii_bytes(enc));
    lemma_pd_of_pe(bs);
    assert(percent_decode(encode_utf8(enc)) =~= bs);
    encode_utf8_valid_utf8(s);
    lemma_utf8_lossy_valid(bs);
    encode_utf8_decode_utf8(s);
}

} // verus!
