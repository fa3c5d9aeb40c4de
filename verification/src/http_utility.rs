//! Parsing and validation for the plain-string request pair of
//! [`crate::enums`]: a lenient line-oriented parser, and a validator
//! over a fixed method list.

use vstd::prelude::*;
use vstd::string::StringExecFns;
use crate::enums::{HttpRequest, HttpResponse, RequestView, new_response_view, ResponseView};
use crate::http::headers::assoc_find;
use crate::text::chars::{lower, chars_to_string, string_eq_str, pairs_view, subrange_chars, chars_of};
use crate::text::numbers::spec_parse_u16;
use crate::text::scan::{
    find_char_end, find_char_at, split_lines, split_lines_vec, split_ws, split_ws_vec, trim,
    trim_vec,
};

verus! {

/// The header pairs read from `lines[i..]`, appended in order to `acc`:
/// each line is trimmed, a blank line ends the walk, a line without a
/// colon is skipped, and every other line splits at its first colon into
/// a case-folded trimmed name and a trimmed value.
pub open spec fn spec_simple_headers(
    lines: Seq<Seq<char>>,
    i: int,
    acc: Seq<(Seq<char>, Seq<char>)>,
) -> Seq<(Seq<char>, Seq<char>)>
    decreases lines.len() - i,
        when 0 <= i <= lines.len()
{
    if i >= lines.len() {
        acc
    } else {
        let line = trim(lines[i]);
        if line.len() == 0 {
            acc
        } else {
            let c = find_char_end(line, ':', 0);
            if c == line.len() {
                spec_simple_headers(lines, i + 1, acc)
            } else {
                let key = lower(trim(line.subrange(0, c)));
                let value = trim(line.subrange(c + 1, line.len() as int));
                spec_simple_headers(lines, i + 1, acc.push((key, value)))
            }
        }
    }
}

/// The origin a Host header value names here: split at the first colon,
/// with port 80 for an absent or malformed port.
pub open spec fn spec_simple_origin(h: Seq<char>) -> (Seq<char>, u16) {
    let c = find_char_end(h, ':', 0);
    if c == h.len() {
        (h, 80)
    } else {
        (
            h.subrange(0, c),
            match spec_parse_u16(h.subrange(c + 1, h.len() as int)) {
                Some(p) => p,
                None => 80,
            },
        )
    }
}

/// What [`parse_http_request`] returns: the first three
/// whitespace-separated tokens of the first line as method, path and
/// version (nothing with fewer), the header pairs of the following
/// lines, and the origin from the first `host` header, defaulting to
/// `127.0.0.1:80`.
pub open spec fn spec_parse_simple(s: Seq<char>) -> Option<RequestView> {
    let lines = split_lines(s);
    if lines.len() == 0 {
        None
    } else {
        let toks = split_ws(lines[0]);
        if toks.len() < 3 {
            None
        } else {
            let headers = spec_simple_headers(lines, 1, Seq::<(Seq<char>, Seq<char>)>::empty());
            let host = match assoc_find(headers, "host"@) {
                Some(h) => h,
                None => "127.0.0.1"@,
            };
            let origin = spec_simple_origin(host);
            Some(
                RequestView {
                    method: toks[0],
                    path: toks[1],
                    version: toks[2],
                    headers,
                    origin_host: origin.0,
                    origin_port: origin.1,
                },
            )
        }
    }
}

/// Parses a request leniently, [`spec_parse_simple`] exactly.
pub fn parse_http_request(request: &str) -> (r: Option<HttpRequest>)
    ensures
        match r {
            Some(req) => spec_parse_simple(request@) == Some(req@),
            None => spec_parse_simple(request@) is None,
        },
{
    let chars = chars_of(request);
    let lines = split_lines_vec(&chars);
    let ghost lv = lines.deep_view();
    if lines.len() == 0 {
        return None;
    }
    proof {
        assert(lv[0] =~= lines@[0]@);
    }
    let toks = split_ws_vec(&lines[0]);
    let ghost tv = toks.deep_view();
    if toks.len() < 3 {
        return None;
    }
    proof {
        assert(tv[0] =~= toks@[0]@);
        assert(tv[1] =~= toks@[1]@);
        assert(tv[2] =~= toks@[2]@);
    }
    let method = chars_to_string(&toks[0]);
    let path = chars_to_string(&toks[1]);
    let version = chars_to_string(&toks[2]);
    let mut headers: Vec<(String, String)> = Vec::new();
    proof {
        assert(pairs_view(headers@) =~= Seq::<(Seq<char>, Seq<char>)>::empty());
    }
    let mut i: usize = 1;
    let mut done = false;
    while i < lines.len() && !done
        invariant
            1 <= i <= lines@.len(),
            lv == lines.deep_view(),
            lv.len() == lines@.len(),
            forall|j: int| 0 <= j < lv.len() ==> (#[trigger] lines@[j])@ == lv[j],
            spec_simple_headers(lv, 1, Seq::<(Seq<char>, Seq<char>)>::empty())
                == spec_simple_headers(lv, i as int, pairs_view(headers@)),
            done ==> spec_simple_headers(lv, i as int, pairs_view(headers@)) == pairs_view(
                headers@),
        decreases lines@.len() - i + (if done { 0int } else { 1int }),
    {
        let line = trim_vec(&lines[i]);
        proof {
            assert(lines@[i as int]@ == lv[i as int]);
            assert(line@ == trim(lv[i as int]));
        }
        if line.len() == 0 {
            done = true;
        } else {
            let ghost h0 = pairs_view(headers@);
            let c = find_char_at(&line, ':', 0);
            if c < line.len() {
                let key_chars = trim_vec(&subrange_chars(&line, 0, c));
                let val_chars = trim_vec(&subrange_chars(&line, c + 1, line.len()));
                let key = crate::http::headers::lower_string(&chars_to_string(&key_chars));
                let value = chars_to_string(&val_chars);
                let pair = (key, value);
                headers.push(pair);
                proof {
                    let lineg = trim(lv[i as int]);
                    assert(pairs_view(headers@) =~= h0.push(
                        (
                            lower(trim(lineg.subrange(0, c as int))),
                            trim(lineg.subrange(c + 1, lineg.len() as int)),
                        ),
                    ));
                    assert(spec_simple_headers(lv, i as int, h0) == spec_simple_headers(
                        lv, i + 1, pairs_view(headers@)));
                }
            } else {
                proof {
                    assert(spec_simple_headers(lv, i as int, h0) == spec_simple_headers(
                        lv, i + 1, h0));
                }
            }
            i = i + 1;
        }
    }
    let ghost hv = pairs_view(headers@);
    let mut host = String::from_str("127.0.0.1");
    let mut k: usize = 0;
    let mut found = false;
    while k < headers.len() && !found
        invariant
            k <= headers@.len(),
            hv == pairs_view(headers@),
            hv.len() == headers@.len(),
            forall|j: int| 0 <= j < k ==> hv[j].0 != "host"@,
            !found ==> host@ == "127.0.0.1"@,
            found ==> k < headers@.len() && hv[k as int].0 == "host"@ && host@ == hv[k as int].1
                && assoc_find(hv, "host"@) == Some(host@),
        decreases headers@.len() - k + (if found { 0int } else { 1int }),
    {
        if string_eq_str(&headers[k].0, "host") {
            host = headers[k].1.clone();
            found = true;
            proof {
                crate::http::headers::lemma_assoc_index(hv, "host"@);
                let idx = crate::http::headers::assoc_index(hv, "host"@);
                assert(hv[k as int].0 == "host"@);
                if 0 <= idx < k {
                    assert(hv[idx].0 == "host"@);
                    assert(false);
                }
                assert(idx == k);
            }
        } else {
            k = k + 1;
        }
    }
    proof {
        if !found {
            crate::http::headers::lemma_assoc_index(hv, "host"@);
            let idx = crate::http::headers::assoc_index(hv, "host"@);
            if idx >= 0 {
                assert(hv[idx].0 == "host"@);
                assert(false);
            }
        }
    }
    let host_chars = chars_of(host.as_str());
    let c = find_char_at(&host_chars, ':', 0);
    let origin: (String, u16) = if c < host_chars.len() {
        let pre = subrange_chars(&host_chars, 0, c);
        let post = subrange_chars(&host_chars, c + 1, host_chars.len());
        let port = match crate::text::numbers::parse_u16_chars(&post) {
            Some(p) => p,
            None => 80,
        };
        (chars_to_string(&pre), port)
    } else {
        (host, 80)
    };
    let req = HttpRequest { method, path, version, headers, origin };
    proof {
        assert(spec_parse_simple(request@) matches Some(rv) && rv =~= req@);
    }
    Some(req)
}

/// True of the six tokens in the allowed-method list.
pub open spec fn is_allowed_method(m: Seq<char>) -> bool {
    ||| m == "GET"@
    ||| m == "POST"@
    ||| m == "PUT"@
    ||| m == "DELETE"@
    ||| m == "HEAD"@
    ||| m == "OPTIONS"@
}

/// What [`verify_http_request`] returns: a 400 for an empty method,
/// path or version; a 405 naming the method when it is outside the
/// allowed list; a 505 naming the version when it is not `HTTP/1.1`; a
/// 400 when no `host` header is present; acceptance otherwise.
pub open spec fn spec_verify_simple(rv: RequestView) -> Result<(), ResponseView> {
    if rv.method.len() == 0 || rv.path.len() == 0 || rv.version.len() == 0 {
        Err(new_response_view(400, "Malformed Request"@))
    } else if !is_allowed_method(rv.method) {
        Err(new_response_view(405, "Method Not Allowed ("@ + rv.method + ")"@))
    } else if rv.version != "HTTP/1.1"@ {
        Err(new_response_view(505, "Version Not Supported ("@ + rv.version + ")"@))
    } else if assoc_find(rv.headers, "host"@) is None {
        Err(new_response_view(400, "Bad Request: Missing Host Header"@))
    } else {
        Ok(())
    }
}

/// Validates a plain-string request, [`spec_verify_simple`] exactly.
pub fn verify_http_request(req: &HttpRequest) -> (r: Result<(), HttpResponse>)
    ensures
        match r {
            Ok(_) => spec_verify_simple(req@) == Ok::<(), ResponseView>(()),
            Err(resp) => spec_verify_simple(req@) == Err::<(), ResponseView>(resp@),
        },
{
    if req.method.as_str().is_empty() || req.path.as_str().is_empty()
        || req.version.as_str().is_empty() {
        return Err(HttpResponse::new(400, String::from_str("Malformed Request")));
    }
    let allowed = string_eq_str(&req.method, "GET") || string_eq_str(&req.method, "POST")
        || string_eq_str(&req.method, "PUT") || string_eq_str(&req.method, "DELETE")
        || string_eq_str(&req.method, "HEAD") || string_eq_str(&req.method, "OPTIONS");
    if !allowed {
        let msg = String::from_str("Method Not Allowed (").concat(req.method.as_str()).concat(
            ")",
        );
        return Err(HttpResponse::new(405, msg));
    }
    if !string_eq_str(&req.version, "HTTP/1.1") {
        let msg = String::from_str("Version Not Supported (").concat(req.version.as_str()).concat(
            ")",
        );
        return Err(HttpResponse::new(505, msg));
    }
    let ghost hv = pairs_view(req.headers@);
    let mut k: usize = 0;
    let mut found = false;
    while k < req.headers.len() && !found
        invariant
            k <= req.headers@.len(),
            hv == pairs_view(req.headers@),
            hv.len() == req.headers@.len(),
            forall|j: int| 0 <= j < k ==> hv[j].0 != "host"@,
            found ==> k < req.headers@.len() && hv[k as int].0 == "host"@,
        decreases req.headers@.len() - k + (if found { 0int } else { 1int }),
    {
        if string_eq_str(&req.headers[k].0, "host") {
            found = true;
        } else {
            k = k + 1;
        }
    }
    if !found {
        proof {
            crate::http::headers::lemma_assoc_index(hv, "host"@);
            let idx = crate::http::headers::assoc_index(hv, "host"@);
            if idx >= 0 {
                assert(hv[idx].0 == "host"@);
                assert(false);
            }
        }
        return Err(HttpResponse::new(400, String::from_str("Bad Request: Missing Host Header")));
    }
    proof {
        crate::http::headers::lemma_assoc_index(hv, "host"@);
        let idx = crate::http::headers::assoc_index(hv, "host"@);
        if idx == -1 {
            assert(hv[k as int].0 == "host"@);
            assert(false);
        }
    }
    Ok(())
}

} // verus!
