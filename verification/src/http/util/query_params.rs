//! Query-string splitting: a path splits at its first `?`, the suffix
//! splits on `&`, and each segment splits at its first `=` into a
//! percent-decoded key and value.  A segment without `=` is dropped, by
//! design, not emitted as a parameter with an empty value.

use vstd::prelude::*;
use crate::http::util::url_lib::{url_decode, spec_url_decode};
use crate::text::chars::{chars_of, chars_to_string, subrange_chars, pairs_view};
use crate::text::scan::{find_char_end, find_char_at, split_char, split_char_vec};

verus! {

/// The parameter pairs of the split query segments: each segment with an
/// `=` contributes its percent-decoded key and value; the rest are
/// dropped.
pub open spec fn param_pairs(segs: Seq<Seq<char>>) -> Seq<(Seq<char>, Seq<char>)>
    decreases segs.len(),
{
    if segs.len() == 0 {
        seq![]
    } else {
        let seg = segs[0];
        let eq = find_char_end(seg, '=', 0);
        let rest = param_pairs(segs.drop_first());
        if eq == seg.len() {
            rest
        } else {
            seq![
                (
                    spec_url_decode(seg.subrange(0, eq)),
                    spec_url_decode(seg.subrange(eq + 1, seg.len() as int)),
                ),
            ] + rest
        }
    }
}

/// What [`extract_query_params`] returns: the path before the first `?`
/// unchanged, and the decoded parameter pairs of the suffix.
pub open spec fn spec_extract_query(path: Seq<char>) -> (Seq<char>, Seq<(Seq<char>, Seq<char>)>) {
    let q = find_char_end(path, '?', 0);
    if q == path.len() {
        (path, seq![])
    } else {
        (path.subrange(0, q), param_pairs(split_char(path.subrange(q + 1, path.len() as int), '&')))
    }
}

/// Splits `path` at its first `?` and decodes the query parameters, as
/// [`spec_extract_query`] describes.
pub fn extract_query_params(path: &str) -> (r: (String, Vec<(String, String)>))
    ensures
        r.0@ == spec_extract_query(path@).0,
        pairs_view(r.1@) == spec_extract_query(path@).1,
{
    let chars = chars_of(path);
    let q = find_char_at(&chars, '?', 0);
    if q == chars.len() {
        let base = chars_to_string(&chars);
        let params: Vec<(String, String)> = Vec::new();
        proof {
            assert(pairs_view(params@) =~= spec_extract_query(path@).1);
        }
        (base, params)
    } else {
        let base_chars = subrange_chars(&chars, 0, q);
        let base = chars_to_string(&base_chars);
        let query_chars = subrange_chars(&chars, q + 1, chars.len());
        let segs = split_char_vec(&query_chars, '&');
        let ghost all = segs.deep_view();
        let mut params: Vec<(String, String)> = Vec::new();
        let mut i: usize = 0;
        proof {
            assert(all.subrange(0, all.len() as int) =~= all);
            assert(all.subrange(i as int, all.len() as int) =~= all);
        }
        while i < segs.len()
            invariant
                i <= segs@.len(),
                all == segs.deep_view(),
                all.len() == segs@.len(),
                forall|j: int| 0 <= j < all.len() ==> (#[trigger] segs@[j])@ == all[j],
                param_pairs(all) =~= pairs_view(params@) + param_pairs(all.subrange(
                    i as int, all.len() as int)),
            decreases segs@.len() - i,
        {
            let ghost pre = all.subrange(i as int, all.len() as int);
            let ghost p0 = pairs_view(params@);
            let seg = &segs[i];
            let eq = find_char_at(seg, '=', 0);
            proof {
                assert(pre[0] == seg@);
                assert(pre.drop_first() =~= all.subrange(i + 1, all.len() as int));
            }
            if eq < seg.len() {
                let key_chars = subrange_chars(seg, 0, eq);
                let val_chars = subrange_chars(seg, eq + 1, seg.len());
                let key_text = chars_to_string(&key_chars);
                let val_text = chars_to_string(&val_chars);
                let pair = (url_decode(key_text.as_str()), url_decode(val_text.as_str()));
                params.push(pair);
                proof {
                    assert(pairs_view(params@) =~= p0.push(
                        (
                            spec_url_decode(seg@.subrange(0, eq as int)),
                            spec_url_decode(seg@.subrange(eq + 1, seg@.len() as int)),
                        ),
                    ));
                    assert(param_pairs(pre) =~= seq![
                        (
                            spec_url_decode(seg@.subrange(0, eq as int)),
                            spec_url_decode(seg@.subrange(eq + 1, seg@.len() as int)),
                        ),
                    ] + param_pairs(pre.drop_first()));
                }
            } else {
                proof {
                    assert(param_pairs(pre) =~= param_pairs(pre.drop_first()));
                }
            }
            i = i + 1;
            proof {
                assert(param_pairs(all) =~= pairs_view(params@) + param_pairs(all.subrange(
                    i as int, all.len() as int)));
            }
        }
        proof {
            assert(all.subrange(all.len() as int, all.len() as int) =~= Seq::<Seq<char>>::empty());
            assert(pairs_view(params@) =~= param_pairs(all));
            assert(all == split_char(path@.subrange(q + 1, path@.len() as int), '&'));
            assert(spec_extract_query(path@).1 == param_pairs(all));
        }
        (base, params)
    }
}

} // verus!
