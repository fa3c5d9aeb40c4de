//! Verified decimal numerals: rendering a number as its decimal digit
//! string, and parsing a `u16` the way `str::parse::<u16>` does (an
//! optional leading `+`, then one or more digits, no overflow).

use vstd::prelude::*;

verus! {

/// The digit character for a value below ten.
pub open spec fn dec_digit_char(d: nat) -> char
    recommends
        d < 10,
{
    ((d + 48) as u8) as char
}

/// The decimal numeral of `n`, without a sign and without leading zeros
/// (a single `0` for zero).
pub open spec fn dec_str(n: nat) -> Seq<char>
    decreases n,
{
    if n < 10 {
        seq![dec_digit_char(n)]
    } else {
        dec_str(n / 10).push(dec_digit_char(n % 10))
    }
}

fn push_dec_digits(n: usize, s: &mut String)
    ensures
        final(s)@ == old(s)@ + dec_str(n as nat),
    decreases n,
{
    if n >= 10 {
        push_dec_digits(n / 10, s);
    }
    let d: u8 = (n % 10) as u8;
    s.push((d + 48) as char);
    proof {
        assert(final(s)@ =~= old(s)@ + dec_str(n as nat));
    }
}

/// The decimal numeral of `n` as a string.
pub fn usize_to_string(n: usize) -> (s: String)
    ensures
        s@ == dec_str(n as nat),
{
    let mut s = String::new();
    push_dec_digits(n, &mut s);
    proof {
        assert(s@ =~= dec_str(n as nat));
    }
    s
}

/// True of `0` through `9`.
pub open spec fn is_dec_digit(c: char) -> bool {
    '0' <= c && c <= '9'
}

/// The value of a digit character.
pub open spec fn dec_digit_val(c: char) -> nat
    recommends
        is_dec_digit(c),
{
    ((c as u32) - 48) as nat
}

/// The value of a digit string read left to right.
pub open spec fn dec_val(s: Seq<char>) -> nat
    decreases s.len(),
{
    if s.len() == 0 {
        0
    } else {
        dec_val(s.drop_last()) * 10 + dec_digit_val(s.last())
    }
}

/// The digit part of a numeral token: everything after an optional
/// leading `+`.
pub open spec fn numeral_digits(s: Seq<char>) -> Seq<char> {
    if s.len() > 0 && s[0] == '+' {
        s.drop_first()
    } else {
        s
    }
}

/// What `str::parse::<u16>` returns on `s`: the value when `s` is an
/// optional `+` followed by one or more digits whose value fits in
/// `u16`, and nothing otherwise.
pub open spec fn spec_parse_u16(s: Seq<char>) -> Option<u16> {
    let digits = numeral_digits(s);
    if digits.len() > 0 && (forall|i: int| 0 <= i < digits.len() ==> is_dec_digit(digits[i]))
        && dec_val(digits) <= 65535 {
        Some(dec_val(digits) as u16)
    } else {
        None
    }
}

/// Computes [`spec_parse_u16`] on the characters of `v`.
pub fn parse_u16_chars(v: &Vec<char>) -> (r: Option<u16>)
    ensures
        r == spec_parse_u16(v@),
{
    let ghost digits = numeral_digits(v@);
    let start: usize = if v.len() > 0 && v[0] == '+' {
        1
    } else {
        0
    };
    proof {
        assert(digits =~= v@.subrange(start as int, v@.len() as int));
    }
    if v.len() == start {
        return None;
    }
    // acc tracks the digit value seen so far, clipped at 65536 so that it
    // never overflows; once clipped the final value cannot fit either.
    let mut acc: u32 = 0;
    let mut i: usize = start;
    while i < v.len()
        invariant
            start <= i <= v@.len(),
            digits == numeral_digits(v@),
            digits =~= v@.subrange(start as int, v@.len() as int),
            forall|j: int| start <= j < i ==> is_dec_digit(v@[j]),
            acc == if dec_val(v@.subrange(start as int, i as int)) <= 65536 {
                dec_val(v@.subrange(start as int, i as int)) as u32
            } else {
                65536u32
            },
        decreases v@.len() - i,
    {
        let c = v[i];
        if c < '0' || c > '9' {
            proof {
                let j = i as int - start as int;
                assert(numeral_digits(v@) =~= digits);
                assert(!is_dec_digit(numeral_digits(v@)[j]));
            }
            return None;
        }
        let d: u32 = (c as u32) - 48;
        let next: u32 = if acc >= 65536 {
            65536
        } else {
            let t = acc * 10 + d;
            if t > 65536 {
                65536
            } else {
                t
            }
        };
        proof {
            let pre = v@.subrange(start as int, i as int);
            let post = v@.subrange(start as int, i as int + 1);
            assert(post.drop_last() =~= pre);
            assert(post.last() == v@[i as int]);
            assert(dec_val(post) == dec_val(pre) * 10 + d);
        }
        acc = next;
        i = i + 1;
    }
    proof {
        assert(v@.subrange(start as int, v@.len() as int) =~= digits);
        assert(forall|j: int| 0 <= j < digits.len() ==> is_dec_digit(digits[j]));
    }
    if acc <= 65535 {
        Some(acc as u16)
    } else {
        None
    }
}

} // verus!
