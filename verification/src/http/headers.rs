//! The header container: a map from header name to one string value.
//! Names are stored case-folded to lowercase, and inserting an existing
//! name overwrites its value (a map, not a multimap).  The model is the
//! stored sequence of `(name, value)` pairs, looked up with
//! [`assoc_find`].

use vstd::prelude::*;
use vstd::string::StringExecFns;
use crate::text::chars::{lower, lower_char, to_lower_char, chars_of, chars_to_string, pairs_view};

verus! {

/// The value under the first occurrence of key `k`, if any.
pub open spec fn assoc_find(m: Seq<(Seq<char>, Seq<char>)>, k: Seq<char>) -> Option<Seq<char>>
    decreases m.len(),
{
    if m.len() == 0 {
        None
    } else if m[0].0 == k {
        Some(m[0].1)
    } else {
        assoc_find(m.drop_first(), k)
    }
}

/// The index of the first occurrence of key `k`, or `-1`.
pub open spec fn assoc_index(m: Seq<(Seq<char>, Seq<char>)>, k: Seq<char>) -> int
    decreases m.len(),
{
    if m.len() == 0 {
        -1
    } else if m[0].0 == k {
        0
    } else if assoc_index(m.drop_first(), k) == -1 {
        -1
    } else {
        1 + assoc_index(m.drop_first(), k)
    }
}

/// What one insertion does to the stored pairs: the case-folded key
/// overwrites in place when present and is appended when absent.
pub open spec fn spec_insert(
    m: Seq<(Seq<char>, Seq<char>)>,
    key: Seq<char>,
    value: Seq<char>,
) -> Seq<(Seq<char>, Seq<char>)> {
    let k = lower(key);
    let i = assoc_index(m, k);
    if i >= 0 {
        m.update(i, (k, value))
    } else {
        m.push((k, value))
    }
}

/// What [`assoc_index`] returns: the first index holding `k`, or `-1`
/// when no index does.
pub proof fn lemma_assoc_index(m: Seq<(Seq<char>, Seq<char>)>, k: Seq<char>)
    ensures
        -1 <= assoc_index(m, k) < m.len(),
        assoc_index(m, k) >= 0 ==> m[assoc_index(m, k)].0 == k && assoc_find(m, k) == Some(
            m[assoc_index(m, k)].1),
        assoc_index(m, k) == -1 ==> assoc_find(m, k) is None,
        forall|j: int| 0 <= j < assoc_index(m, k) ==> m[j].0 != k,
        assoc_index(m, k) == -1 ==> forall|j: int| 0 <= j < m.len() ==> m[j].0 != k,
    decreases m.len(),
{
    if m.len() > 0 && m[0].0 != k {
        lemma_assoc_index(m.drop_first(), k);
        assert forall|j: int| 0 <= j < assoc_index(m, k) implies m[j].0 != k by {
            if j > 0 {
                assert(m.drop_first()[j - 1] == m[j]);
            }
        }
        if assoc_index(m, k) == -1 {
            assert forall|j: int| 0 <= j < m.len() implies m[j].0 != k by {
                if j > 0 {
                    assert(m.drop_first()[j - 1] == m[j]);
                }
            }
        }
    }
}

/// Looking up after an insertion: the inserted key now maps to the new
/// value, and every other key is untouched.
pub proof fn lemma_insert_find(
    m: Seq<(Seq<char>, Seq<char>)>,
    key: Seq<char>,
    value: Seq<char>,
    q: Seq<char>,
)
    ensures
        q == lower(key) ==> assoc_find(spec_insert(m, key, value), q) == Some(value),
        q != lower(key) ==> assoc_find(spec_insert(m, key, value), q) == assoc_find(m, q),
    decreases m.len(),
{
    let k = lower(key);
    lemma_assoc_index(m, k);
    if m.len() == 0 {
        assert(spec_insert(m, key, value) =~= seq![(k, value)]);
        assert(spec_insert(m, key, value).drop_first() =~= m);
    } else if m[0].0 == k {
        assert(spec_insert(m, key, value) =~= seq![(k, value)] + m.drop_first());
        assert(spec_insert(m, key, value).drop_first() =~= m.drop_first());
    } else {
        lemma_insert_find(m.drop_first(), key, value, q);
        if assoc_index(m, k) >= 0 {
            assert(spec_insert(m, key, value).drop_first() =~= spec_insert(
                m.drop_first(), key, value));
            assert(spec_insert(m, key, value)[0] == m[0]);
        } else {
            lemma_assoc_index(m.drop_first(), k);
            assert(spec_insert(m, key, value).drop_first() =~= spec_insert(
                m.drop_first(), key, value));
            assert(spec_insert(m, key, value)[0] == m[0]);
        }
    }
}

/// An ordered-insensitive map from header name to value.
#[derive(Debug)]
pub struct HttpHeaders {
    entries: Vec<(String, String)>,
}

impl Clone for HttpHeaders {
    /// An independent container holding the same pairs.
    fn clone(&self) -> (r: HttpHeaders)
        ensures
            r@ == self@,
    {
        let mut entries: Vec<(String, String)> = Vec::new();
        let mut i: usize = 0;
        while i < self.entries.len()
            invariant
                i <= self.entries@.len(),
                entries@.len() == i,
                forall|j: int| 0 <= j < i ==> (#[trigger] entries@[j]).0@ == self.entries@[j].0@
                    && entries@[j].1@ == self.entries@[j].1@,
            decreases self.entries@.len() - i,
        {
            let pair = (self.entries[i].0.clone(), self.entries[i].1.clone());
            entries.push(pair);
            i = i + 1;
        }
        let r = HttpHeaders { entries };
        proof {
            assert(r@ =~= self@);
        }
        r
    }
}

impl View for HttpHeaders {
    type V = Seq<(Seq<char>, Seq<char>)>;

    closed spec fn view(&self) -> Seq<(Seq<char>, Seq<char>)> {
        Seq::new(self.entries@.len(), |i: int| (self.entries@[i].0@, self.entries@[i].1@))
    }
}

impl HttpHeaders {
    /// The stored names are case-folded and no name occurs twice.
    pub open spec fn wf(&self) -> bool {
        &&& forall|i: int| 0 <= i < self@.len() ==> (#[trigger] self@[i].0) == lower(self@[i].0)
        &&& forall|i: int, j: int| 0 <= i < j < self@.len() ==> self@[i].0 != self@[j].0
    }

    /// An empty container.
    pub fn new() -> (r: HttpHeaders)
        ensures
            r@ == Seq::<(Seq<char>, Seq<char>)>::empty(),
            r.wf(),
    {
        let r = HttpHeaders { entries: Vec::new() };
        proof {
            assert(r@ =~= Seq::<(Seq<char>, Seq<char>)>::empty());
        }
        r
    }

    /// Stores `value` under the case-folded `key`, overwriting any entry
    /// with that name.
    pub fn insert(&mut self, key: String, value: String)
        requires
            old(self).wf(),
        ensures
            final(self).wf(),
            final(self)@ == spec_insert(old(self)@, key@, value@),
            assoc_find(final(self)@, lower(key@)) == Some(value@),
            forall|q: Seq<char>| q != lower(key@) ==> assoc_find(final(self)@, q) == assoc_find(
                old(self)@, q),
    {
        let folded = lower_string(&key);
        let ghost m0 = self@;
        let ghost k = lower(key@);
        let mut i: usize = 0;
        let mut found = false;
        while i < self.entries.len() && !found
            invariant
                i <= self.entries@.len(),
                self@ == m0,
                folded@ == k,
                forall|j: int| 0 <= j < i ==> m0[j].0 != k,
                found ==> i < self.entries@.len() && m0[i as int].0 == k,
            decreases self.entries@.len() - i + (if found { 0int } else { 1int }),
        {
            if chars_eq_string(&self.entries[i].0, &folded) {
                found = true;
            } else {
                i = i + 1;
            }
        }
        proof {
            lemma_assoc_index(m0, k);
        }
        if found {
            proof {
                let idx = assoc_index(m0, k);
                assert(m0[i as int].0 == k);
                if 0 <= idx < i {
                    assert(m0[idx].0 == k);
                    assert(false);
                }
                assert(idx == i);
            }
            self.entries.remove(i);
            let pair = (folded, value);
            self.entries.insert(i, pair);
            proof {
                assert(self@ =~= m0.update(i as int, (k, value@)));
                assert(self@ == spec_insert(m0, key@, value@));
            }
        } else {
            proof {
                assert(assoc_index(m0, k) == -1);
            }
            let pair = (folded, value);
            self.entries.push(pair);
            proof {
                assert(self@ =~= m0.push((k, value@)));
                assert(self@ == spec_insert(m0, key@, value@));
            }
        }
        proof {
            lemma_lower_idempotent(key@);
            assert(self.wf());
            lemma_insert_find(m0, key@, value@, k);
            assert forall|q: Seq<char>| q != k implies assoc_find(self@, q) == assoc_find(
                m0, q) by {
                lemma_insert_find(m0, key@, value@, q);
            }
        }
    }

    /// The value stored under the case-folded `key`, if any.
    pub fn get<'a>(&'a self, key: &str) -> (r: Option<&'a String>)
        ensures
            match r {
                Some(v) => assoc_find(self@, lower(key@)) == Some(v@),
                None => assoc_find(self@, lower(key@)) is None,
            },
    {
        let folded = lower_str(key);
        let mut i: usize = 0;
        while i < self.entries.len()
            invariant
                i <= self.entries@.len(),
                folded@ == lower(key@),
                forall|j: int| 0 <= j < i ==> self@[j].0 != folded@,
            decreases self.entries@.len() - i,
        {
            if chars_eq_string(&self.entries[i].0, &folded) {
                proof {
                    lemma_assoc_index(self@, folded@);
                    let idx = assoc_index(self@, folded@);
                    assert(self@[i as int].0 == folded@);
                    if 0 <= idx < i {
                        assert(self@[idx].0 == folded@);
                        assert(false);
                    }
                    assert(idx == i);
                }
                return Some(&self.entries[i].1);
            }
            i = i + 1;
        }
        proof {
            lemma_assoc_index(self@, folded@);
        }
        None
    }

    /// All stored pairs; their order carries no meaning.
    pub fn iter(&self) -> (r: &Vec<(String, String)>)
        ensures
            r@.len() == self@.len(),
            forall|i: int| 0 <= i < self@.len() ==> (#[trigger] r@[i]).0@ == self@[i].0 && r@[
                i].1@ == self@[i].1,
    {
        &self.entries
    }

    /// How many names are stored.
    pub fn len(&self) -> (r: usize)
        ensures
            r == self@.len(),
    {
        self.entries.len()
    }
}

/// Repeated insertion of each pair in order, as constructing a container
/// from a pair list performs it.
pub open spec fn spec_inserts(
    m: Seq<(Seq<char>, Seq<char>)>,
    pairs: Seq<(Seq<char>, Seq<char>)>,
) -> Seq<(Seq<char>, Seq<char>)>
    decreases pairs.len(),
{
    if pairs.len() == 0 {
        m
    } else {
        spec_inserts(spec_insert(m, pairs[0].0, pairs[0].1), pairs.drop_first())
    }
}

impl HttpHeaders {
    /// A container built by inserting every pair of `pairs` in order.
    pub fn from_pairs(pairs: Vec<(String, String)>) -> (r: HttpHeaders)
        ensures
            r.wf(),
            r@ == spec_inserts(Seq::<(Seq<char>, Seq<char>)>::empty(), pairs_view(pairs@)),
    {
        let ghost all = pairs_view(pairs@);
        let mut rest = pairs;
        let mut r = HttpHeaders::new();
        while rest.len() > 0
            invariant
                r.wf(),
                spec_inserts(Seq::<(Seq<char>, Seq<char>)>::empty(), all) == spec_inserts(
                    r@, pairs_view(rest@)),
            decreases rest@.len(),
        {
            let ghost pre = pairs_view(rest@);
            let ghost r0 = r@;
            let p = rest.remove(0);
            r.insert(p.0, p.1);
            proof {
                assert(pairs_view(rest@) =~= pre.drop_first());
                assert(r@ == spec_insert(r0, pre[0].0, pre[0].1));
                assert(spec_inserts(r0, pre) == spec_inserts(r@, pairs_view(rest@)));
            }
        }
        proof {
            assert(pairs_view(rest@) =~= Seq::<(Seq<char>, Seq<char>)>::empty());
        }
        r
    }
}

impl Default for HttpHeaders {
    /// The empty container.
    fn default() -> (r: HttpHeaders)
        ensures
            r@ == Seq::<(Seq<char>, Seq<char>)>::empty(),
            r.wf(),
    {
        HttpHeaders::new()
    }
}

/// Case folding twice folds once.
pub proof fn lemma_lower_idempotent(s: Seq<char>)
    ensures
        lower(lower(s)) == lower(s),
{
    assert(lower(lower(s)) =~= lower(s)) by {
        assert(forall|i: int| 0 <= i < s.len() ==> #[trigger] lower(s)[i] == lower_char(s[i]));
        assert(forall|i: int| 0 <= i < s.len() ==> #[trigger] lower(lower(s))[i] == lower_char(
            lower(s)[i]));
    }
}

/// The case-folded copy of a string slice.
pub fn lower_str(s: &str) -> (r: String)
    ensures
        r@ == lower(s@),
{
    let v = chars_of(s);
    let mut out: Vec<char> = Vec::new();
    let mut i: usize = 0;
    while i < v.len()
        invariant
            i <= v@.len(),
            v@ == s@,
            out@.len() == i,
            forall|j: int| 0 <= j < i ==> #[trigger] out@[j] == lower_char(s@[j]),
        decreases v@.len() - i,
    {
        out.push(to_lower_char(v[i]));
        i = i + 1;
    }
    proof {
        assert(out@ =~= lower(s@));
    }
    chars_to_string(&out)
}

/// The case-folded copy of a string.
pub fn lower_string(s: &String) -> (r: String)
    ensures
        r@ == lower(s@),
{
    lower_str(s.as_str())
}

/// True exactly when the two strings hold the same characters.
pub fn chars_eq_string(a: &String, b: &String) -> (r: bool)
    ensures
        r == (a@ == b@),
{
    a.eq(b)
}

} // verus!
