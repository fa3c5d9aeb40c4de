//! Verified searching, splitting and trimming of character sequences.
//!
//! Each operation has a spec-level definition over `Seq<char>` (the model
//! the parser contracts are written in) and an executable counterpart over
//! `Vec<char>` proved equal to it.

use vstd::prelude::*;
use crate::text::chars::{is_ws_char, is_whitespace_char, subrange_chars};

verus! {

/// Index of the first occurrence of `c` at or after `from`; `s.len()`
/// when there is none.
pub open spec fn find_char_end(s: Seq<char>, c: char, from: int) -> int
    decreases s.len() - from,
        when 0 <= from <= s.len()
{
    if from >= s.len() {
        s.len() as int
    } else if s[from] == c {
        from
    } else {
        find_char_end(s, c, from + 1)
    }
}

/// What [`find_char_end`] returns: the first index at or after `from`
/// holding `c`, or the length when no index does.
pub proof fn lemma_find_char_end(s: Seq<char>, c: char, from: int)
    requires
        0 <= from <= s.len(),
    ensures
        from <= find_char_end(s, c, from) <= s.len(),
        find_char_end(s, c, from) < s.len() ==> s[find_char_end(s, c, from)] == c,
        forall|j: int| from <= j < find_char_end(s, c, from) ==> s[j] != c,
    decreases s.len() - from,
{
    if from < s.len() && s[from] != c {
        lemma_find_char_end(s, c, from + 1);
    }
}

/// Computes [`find_char_end`].
pub fn find_char_at(v: &Vec<char>, c: char, from: usize) -> (r: usize)
    requires
        from <= v@.len(),
    ensures
        r == find_char_end(v@, c, from as int),
        from <= r <= v@.len(),
        r < v@.len() ==> v@[r as int] == c,
        forall|j: int| from <= j < r ==> v@[j] != c,
    decreases v@.len() - from,
{
    proof {
        lemma_find_char_end(v@, c, from as int);
    }
    if from >= v.len() {
        v.len()
    } else if v[from] == c {
        from
    } else {
        find_char_at(v, c, from + 1)
    }
}

/// Index of the last occurrence of `c`, or `-1` when there is none.
pub open spec fn rfind_char_idx(s: Seq<char>, c: char) -> int
    decreases s.len(),
{
    if s.len() == 0 {
        -1
    } else if s.last() == c {
        s.len() - 1
    } else {
        rfind_char_idx(s.drop_last(), c)
    }
}

/// What [`rfind_char_idx`] returns: the last index holding `c`, or `-1`
/// when no index does.
pub proof fn lemma_rfind_char_idx(s: Seq<char>, c: char)
    ensures
        -1 <= rfind_char_idx(s, c) < s.len(),
        rfind_char_idx(s, c) >= 0 ==> s[rfind_char_idx(s, c)] == c,
        forall|j: int| rfind_char_idx(s, c) < j < s.len() ==> s[j] != c,
    decreases s.len(),
{
    if s.len() > 0 && s.last() != c {
        lemma_rfind_char_idx(s.drop_last(), c);
        assert(forall|j: int| 0 <= j < s.len() - 1 ==> s.drop_last()[j] == s[j]);
    }
}

/// Computes [`rfind_char_idx`], with `None` standing for `-1`.
pub fn rfind_char_vec(v: &Vec<char>, c: char) -> (r: Option<usize>)
    ensures
        match r {
            Some(i) => i == rfind_char_idx(v@, c),
            None => rfind_char_idx(v@, c) == -1,
        },
{
    let mut i: usize = v.len();
    proof {
        assert(v@.subrange(0, v@.len() as int) =~= v@);
    }
    while i > 0
        invariant
            i <= v@.len(),
            rfind_char_idx(v@, c) == rfind_char_idx(v@.subrange(0, i as int), c),
        decreases i,
    {
        i = i - 1;
        proof {
            let pre = v@.subrange(0, i + 1);
            assert(pre.last() == v@[i as int]);
            assert(pre.drop_last() =~= v@.subrange(0, i as int));
        }
        if v[i] == c {
            return Some(i);
        }
    }
    proof {
        assert(v@.subrange(0, 0) =~= Seq::<char>::empty());
    }
    None
}

/// True when the four characters of a blank-line separator (`\r\n\r\n`)
/// stand at index `i`.
pub open spec fn is_crlfcrlf_at(s: Seq<char>, i: int) -> bool {
    &&& 0 <= i
    &&& i + 4 <= s.len()
    &&& s[i] == '\r'
    &&& s[i + 1] == '\n'
    &&& s[i + 2] == '\r'
    &&& s[i + 3] == '\n'
}

/// Index of the first blank-line separator at or after `from`; `s.len()`
/// when there is none.
pub open spec fn find_sep_end(s: Seq<char>, from: int) -> int
    decreases s.len() - from,
        when 0 <= from <= s.len()
{
    if from + 4 > s.len() {
        s.len() as int
    } else if is_crlfcrlf_at(s, from) {
        from
    } else {
        find_sep_end(s, from + 1)
    }
}

/// What [`find_sep_end`] returns: the first separator position at or
/// after `from`, or the length when there is none.
pub proof fn lemma_find_sep_end(s: Seq<char>, from: int)
    requires
        0 <= from <= s.len(),
    ensures
        from <= find_sep_end(s, from) <= s.len(),
        find_sep_end(s, from) < s.len() ==> is_crlfcrlf_at(s, find_sep_end(s, from)),
        forall|j: int| from <= j < find_sep_end(s, from) ==> !is_crlfcrlf_at(s, j),
    decreases s.len() - from,
{
    if from + 4 <= s.len() && !is_crlfcrlf_at(s, from) {
        lemma_find_sep_end(s, from + 1);
    }
}

/// Computes [`find_sep_end`].
pub fn find_sep_at(v: &Vec<char>, from: usize) -> (r: usize)
    requires
        from <= v@.len(),
    ensures
        r == find_sep_end(v@, from as int),
        from <= r <= v@.len(),
        r < v@.len() ==> is_crlfcrlf_at(v@, r as int),
        forall|j: int| from <= j < r ==> !is_crlfcrlf_at(v@, j),
    decreases v@.len() - from,
{
    proof {
        lemma_find_sep_end(v@, from as int);
    }
    if v.len() - from < 4 {
        v.len()
    } else if v[from] == '\r' && v[from + 1] == '\n' && v[from + 2] == '\r' && v[from + 3]
        == '\n' {
        from
    } else {
        find_sep_at(v, from + 1)
    }
}

/// Index of the first non-whitespace character at or after `from`;
/// `s.len()` when all the rest is whitespace.
pub open spec fn first_non_ws(s: Seq<char>, from: int) -> int
    decreases s.len() - from,
        when 0 <= from <= s.len()
{
    if from >= s.len() {
        s.len() as int
    } else if is_ws_char(s[from]) {
        first_non_ws(s, from + 1)
    } else {
        from
    }
}

/// What [`first_non_ws`] returns.
pub proof fn lemma_first_non_ws(s: Seq<char>, from: int)
    requires
        0 <= from <= s.len(),
    ensures
        from <= first_non_ws(s, from) <= s.len(),
        first_non_ws(s, from) < s.len() ==> !is_ws_char(s[first_non_ws(s, from)]),
        forall|j: int| from <= j < first_non_ws(s, from) ==> is_ws_char(s[j]),
    decreases s.len() - from,
{
    if from < s.len() && is_ws_char(s[from]) {
        lemma_first_non_ws(s, from + 1);
    }
}

/// Index of the first whitespace character at or after `from`; `s.len()`
/// when there is none.
pub open spec fn first_ws(s: Seq<char>, from: int) -> int
    decreases s.len() - from,
        when 0 <= from <= s.len()
{
    if from >= s.len() {
        s.len() as int
    } else if is_ws_char(s[from]) {
        from
    } else {
        first_ws(s, from + 1)
    }
}

/// What [`first_ws`] returns.
pub proof fn lemma_first_ws(s: Seq<char>, from: int)
    requires
        0 <= from <= s.len(),
    ensures
        from <= first_ws(s, from) <= s.len(),
        first_ws(s, from) < s.len() ==> is_ws_char(s[first_ws(s, from)]),
        forall|j: int| from <= j < first_ws(s, from) ==> !is_ws_char(s[j]),
    decreases s.len() - from,
{
    if from < s.len() && !is_ws_char(s[from]) {
        lemma_first_ws(s, from + 1);
    }
}

/// Computes [`first_non_ws`].
pub fn first_non_ws_at(v: &Vec<char>, from: usize) -> (r: usize)
    requires
        from <= v@.len(),
    ensures
        r == first_non_ws(v@, from as int),
        from <= r <= v@.len(),
    decreases v@.len() - from,
{
    proof {
        lemma_first_non_ws(v@, from as int);
    }
    if from >= v.len() {
        v.len()
    } else if is_whitespace_char(v[from]) {
        first_non_ws_at(v, from + 1)
    } else {
        from
    }
}

/// Computes [`first_ws`].
pub fn first_ws_at(v: &Vec<char>, from: usize) -> (r: usize)
    requires
        from <= v@.len(),
    ensures
        r == first_ws(v@, from as int),
        from <= r <= v@.len(),
    decreases v@.len() - from,
{
    proof {
        lemma_first_ws(v@, from as int);
    }
    if from >= v.len() {
        v.len()
    } else if is_whitespace_char(v[from]) {
        from
    } else {
        first_ws_at(v, from + 1)
    }
}

/// End (exclusive) of the last non-whitespace character; `0` when the
/// whole sequence is whitespace.
pub open spec fn last_non_ws(s: Seq<char>) -> int
    decreases s.len(),
{
    if s.len() == 0 {
        0
    } else if is_ws_char(s.last()) {
        last_non_ws(s.drop_last())
    } else {
        s.len() as int
    }
}

/// What [`last_non_ws`] returns.
pub proof fn lemma_last_non_ws(s: Seq<char>)
    ensures
        0 <= last_non_ws(s) <= s.len(),
        last_non_ws(s) > 0 ==> !is_ws_char(s[last_non_ws(s) - 1]),
        forall|j: int| last_non_ws(s) <= j < s.len() ==> is_ws_char(s[j]),
    decreases s.len(),
{
    if s.len() > 0 && is_ws_char(s.last()) {
        lemma_last_non_ws(s.drop_last());
        assert(forall|j: int| 0 <= j < s.len() - 1 ==> s.drop_last()[j] == s[j]);
    }
}

/// The sequence with leading and trailing whitespace removed, as
/// `str::trim` removes it.
pub open spec fn trim(s: Seq<char>) -> Seq<char> {
    let a = first_non_ws(s, 0);
    let b = last_non_ws(s);
    if a <= b {
        s.subrange(a, b)
    } else {
        Seq::empty()
    }
}

/// Computes [`trim`].
pub fn trim_vec(v: &Vec<char>) -> (r: Vec<char>)
    ensures
        r@ == trim(v@),
{
    proof {
        lemma_first_non_ws(v@, 0);
        lemma_last_non_ws(v@);
    }
    let a = first_non_ws_at(v, 0);
    let mut b: usize = v.len();
    proof {
        assert(v@.subrange(0, v@.len() as int) =~= v@);
    }
    while b > 0 && is_whitespace_char(v[b - 1])
        invariant
            b <= v@.len(),
            last_non_ws(v@) == last_non_ws(v@.subrange(0, b as int)),
        decreases b,
    {
        proof {
            let pre = v@.subrange(0, b as int);
            assert(pre.last() == v@[b - 1]);
            assert(pre.drop_last() =~= v@.subrange(0, b - 1));
        }
        b = b - 1;
    }
    proof {
        if b == 0 {
            assert(v@.subrange(0, 0) =~= Seq::<char>::empty());
        } else {
            let pre = v@.subrange(0, b as int);
            assert(pre.last() == v@[b - 1]);
        }
        assert(b == last_non_ws(v@));
    }
    if a <= b {
        subrange_chars(v, a, b)
    } else {
        Vec::new()
    }
}

/// Searching from `k + d` in `s` is searching from `d` in the suffix of
/// `s` at `k`.
pub proof fn lemma_find_char_shift(s: Seq<char>, c: char, k: int, from: int)
    requires
        0 <= k <= from <= s.len(),
    ensures
        find_char_end(s, c, from) == k + find_char_end(
            s.subrange(k, s.len() as int), c, from - k),
    decreases s.len() - from,
{
    if from < s.len() && s[from] != c {
        lemma_find_char_shift(s, c, k, from + 1);
    }
}

/// The lines from `k` on are the lines of the suffix of `s` at `k`.
pub proof fn lemma_split_lines_shift(s: Seq<char>, k: int)
    requires
        0 <= k <= s.len(),
    ensures
        split_lines_from(s, k) =~~= split_lines(s.subrange(k, s.len() as int)),
    decreases s.len() - k,
{
    let sub = s.subrange(k, s.len() as int);
    if k >= s.len() {
    } else {
        lemma_find_char_shift(s, '\n', k, k);
        lemma_find_char_end(s, '\n', k);
        let i = find_char_end(s, '\n', k);
        let i2 = find_char_end(sub, '\n', 0);
        assert(i == k + i2);
        assert(s.subrange(k, i) =~= sub.subrange(0, i2));
        if i < s.len() {
            lemma_split_lines_shift(s, i + 1);
            assert(s.subrange(i + 1, s.len() as int) =~= sub.subrange(i2 + 1, sub.len() as int));
            lemma_split_lines_shift(sub, i2 + 1);
        }
    }
}

/// Trimming keeps a sequence whose first and last characters are not
/// whitespace.
pub proof fn lemma_trim_clean(s: Seq<char>)
    requires
        s.len() > 0,
        !is_ws_char(s[0]),
        !is_ws_char(s.last()),
    ensures
        trim(s) == s,
{
    lemma_first_non_ws(s, 0);
    lemma_last_non_ws(s);
    assert(first_non_ws(s, 0) == 0);
    assert(last_non_ws(s) == s.len());
    assert(s.subrange(0, s.len() as int) =~= s);
}

/// A non-empty sequence that trimming keeps begins and ends with
/// characters that are not whitespace.
pub proof fn lemma_trimmed_ends(s: Seq<char>)
    requires
        trim(s) == s,
        s.len() > 0,
    ensures
        !is_ws_char(s[0]),
        !is_ws_char(s.last()),
    decreases s.len(),
{
    lemma_first_non_ws(s, 0);
    lemma_last_non_ws(s);
    let a = first_non_ws(s, 0);
    let b = last_non_ws(s);
    if a <= b {
        assert(s.subrange(a, b).len() == b - a);
        assert(a == 0 && b == s.len());
    } else {
        assert(trim(s).len() == 0);
    }
}

/// Pins [`find_char_end`] down from a witness: when `c` stands at `i`
/// and nowhere between `from` and `i`, the search from `from` finds `i`;
/// when `c` is absent from `from` on, it finds the length.
pub proof fn lemma_find_char_from_is(s: Seq<char>, c: char, from: int, i: int)
    requires
        0 <= from <= i <= s.len(),
        i < s.len() ==> s[i] == c,
        forall|j: int| from <= j < i ==> s[j] != c,
        i == s.len() ==> forall|j: int| from <= j < s.len() ==> s[j] != c,
    ensures
        find_char_end(s, c, from) == i,
{
    lemma_find_char_end(s, c, from);
    let f = find_char_end(s, c, from);
    if f < i {
        assert(s[f] == c);
    }
    if i < f {
        assert(s[i] != c);
    }
}

/// Trimming a sequence without whitespace gives it back.
pub proof fn lemma_trim_ws_free(s: Seq<char>)
    requires
        forall|i: int| 0 <= i < s.len() ==> !is_ws_char(s[i]),
    ensures
        trim(s) == s,
{
    lemma_first_non_ws(s, 0);
    lemma_last_non_ws(s);
    assert(first_non_ws(s, 0) == 0);
    assert(last_non_ws(s) == s.len());
    assert(s.subrange(0, s.len() as int) =~= s);
}

/// A line with a trailing carriage return removed.
pub open spec fn strip_cr(s: Seq<char>) -> Seq<char> {
    if s.len() > 0 && s.last() == '\r' {
        s.drop_last()
    } else {
        s
    }
}

/// The lines of `s` from `from` on, as `str::lines` yields them: split at
/// every line feed, a carriage return before the line feed removed, and
/// no empty line after a trailing line feed.
pub open spec fn split_lines_from(s: Seq<char>, from: int) -> Seq<Seq<char>>
    decreases s.len() - from,
        when 0 <= from <= s.len()
        via split_lines_from_decreases
{
    if from >= s.len() {
        seq![]
    } else {
        let i = find_char_end(s, '\n', from);
        if i == s.len() {
            seq![s.subrange(from, i)]
        } else {
            seq![strip_cr(s.subrange(from, i))] + split_lines_from(s, i + 1)
        }
    }
}

#[via_fn]
proof fn split_lines_from_decreases(s: Seq<char>, from: int) {
    if from < s.len() {
        lemma_find_char_end(s, '\n', from);
    }
}

/// The lines of `s`, as `str::lines` yields them.
pub open spec fn split_lines(s: Seq<char>) -> Seq<Seq<char>> {
    split_lines_from(s, 0)
}

/// Computes [`split_lines`].
pub fn split_lines_vec(v: &Vec<char>) -> (r: Vec<Vec<char>>)
    ensures
        r.deep_view() == split_lines(v@),
{
    let mut r: Vec<Vec<char>> = Vec::new();
    let mut from: usize = 0;
    while from < v.len()
        invariant
            from <= v@.len(),
            split_lines(v@) =~~= r.deep_view() + split_lines_from(v@, from as int),
        decreases v@.len() - from,
    {
        let ghost r0 = r.deep_view();
        let ghost from0 = from as int;
        let i = find_char_at(v, '\n', from);
        if i == v.len() {
            let line = subrange_chars(v, from, i);
            r.push(line);
            from = v.len();
            proof {
                assert(split_lines_from(v@, from0) =~= seq![v@.subrange(from0, v@.len() as int)]);
                assert(r.deep_view() =~~= r0 + split_lines_from(v@, from0));
                assert(split_lines(v@) =~~= r.deep_view() + split_lines_from(v@, from as int));
            }
        } else {
            let line = if i > from && v[i - 1] == '\r' {
                subrange_chars(v, from, i - 1)
            } else {
                subrange_chars(v, from, i)
            };
            proof {
                let seg = v@.subrange(from0, i as int);
                if i > from && v@[i - 1] == '\r' {
                    assert(seg.last() == v@[i - 1]);
                    assert(seg.drop_last() =~= v@.subrange(from0, i - 1));
                }
                assert(line@ == strip_cr(seg));
            }
            r.push(line);
            from = i + 1;
            proof {
                assert(r.deep_view() =~~= r0.push(strip_cr(v@.subrange(from0, i as int))));
                assert(split_lines_from(v@, from0) =~= seq![strip_cr(v@.subrange(from0, i as int))]
                    + split_lines_from(v@, from as int));
                assert(split_lines(v@) =~~= r.deep_view() + split_lines_from(v@, from as int));
            }
        }
    }
    proof {
        assert(split_lines(v@) =~~= r.deep_view());
    }
    r
}

/// The segments of `s` from `from` on, split at every occurrence of `c`,
/// as `str::split` yields them (empty segments kept).
pub open spec fn split_char_from(s: Seq<char>, c: char, from: int) -> Seq<Seq<char>>
    decreases s.len() - from,
        when 0 <= from <= s.len()
        via split_char_from_decreases
{
    let i = find_char_end(s, c, from);
    if i == s.len() {
        seq![s.subrange(from, i)]
    } else {
        seq![s.subrange(from, i)] + split_char_from(s, c, i + 1)
    }
}

#[via_fn]
proof fn split_char_from_decreases(s: Seq<char>, c: char, from: int) {
    lemma_find_char_end(s, c, from);
}

/// The segments of `s` split at every occurrence of `c`.
pub open spec fn split_char(s: Seq<char>, c: char) -> Seq<Seq<char>> {
    split_char_from(s, c, 0)
}

/// Computes [`split_char`].
pub fn split_char_vec(v: &Vec<char>, c: char) -> (r: Vec<Vec<char>>)
    ensures
        r.deep_view() == split_char(v@, c),
{
    let mut r: Vec<Vec<char>> = Vec::new();
    let mut from: usize = 0;
    let mut done = false;
    while !done
        invariant
            from <= v@.len(),
            !done ==> split_char(v@, c) =~~= r.deep_view() + split_char_from(v@, c, from as int),
            done ==> split_char(v@, c) =~~= r.deep_view(),
        decreases v@.len() - from + (if done { 0int } else { 1int }),
    {
        let ghost r0 = r.deep_view();
        let ghost from0 = from as int;
        let i = find_char_at(v, c, from);
        let seg = subrange_chars(v, from, i);
        r.push(seg);
        proof {
            assert(r.deep_view() =~~= r0.push(v@.subrange(from0, i as int)));
        }
        if i == v.len() {
            done = true;
            from = i;
            proof {
                assert(split_char_from(v@, c, from0) =~= seq![v@.subrange(from0, i as int)]);
                assert(split_char(v@, c) =~~= r.deep_view());
            }
        } else {
            from = i + 1;
            proof {
                assert(split_char_from(v@, c, from0) =~= seq![v@.subrange(from0, i as int)]
                    + split_char_from(v@, c, from as int));
                assert(split_char(v@, c) =~~= r.deep_view() + split_char_from(v@, c, from as int));
            }
        }
    }
    r
}

/// The whitespace-separated tokens of `s` from `from` on, as
/// `str::split_whitespace` yields them: maximal runs of characters that
/// are not whitespace, with no empty tokens.
pub open spec fn split_ws_from(s: Seq<char>, from: int) -> Seq<Seq<char>>
    decreases s.len() - from,
        when 0 <= from <= s.len()
        via split_ws_from_decreases
{
    let a = first_non_ws(s, from);
    if a >= s.len() {
        seq![]
    } else {
        let b = first_ws(s, a);
        seq![s.subrange(a, b)] + split_ws_from(s, b)
    }
}

#[via_fn]
proof fn split_ws_from_decreases(s: Seq<char>, from: int) {
    lemma_first_non_ws(s, from);
    let a = first_non_ws(s, from);
    if a < s.len() {
        lemma_first_ws(s, a);
    }
}

/// The whitespace-separated tokens of `s`.
pub open spec fn split_ws(s: Seq<char>) -> Seq<Seq<char>> {
    split_ws_from(s, 0)
}

/// Computes [`split_ws`].
pub fn split_ws_vec(v: &Vec<char>) -> (r: Vec<Vec<char>>)
    ensures
        r.deep_view() == split_ws(v@),
{
    let mut r: Vec<Vec<char>> = Vec::new();
    let mut from: usize = 0;
    loop
        invariant_except_break
            from <= v@.len(),
            split_ws(v@) =~~= r.deep_view() + split_ws_from(v@, from as int),
        ensures
            split_ws(v@) =~~= r.deep_view(),
        decreases v@.len() - from,
    {
        let ghost r0 = r.deep_view();
        let ghost from0 = from as int;
        let a = first_non_ws_at(v, from);
        if a == v.len() {
            proof {
                assert(split_ws_from(v@, from0) =~= Seq::<Seq<char>>::empty());
                assert(split_ws(v@) =~~= r.deep_view());
            }
            break;
        }
        let b = first_ws_at(v, a);
        proof {
            lemma_first_non_ws(v@, from0);
            lemma_first_ws(v@, a as int);
        }
        let tok = subrange_chars(v, a, b);
        r.push(tok);
        from = b;
        proof {
            assert(r.deep_view() =~~= r0.push(v@.subrange(a as int, b as int)));
            assert(split_ws_from(v@, from0) =~= seq![v@.subrange(a as int, b as int)]
                + split_ws_from(v@, b as int));
            assert(split_ws(v@) =~~= r.deep_view() + split_ws_from(v@, from as int));
        }
    }
    r
}

} // verus!
