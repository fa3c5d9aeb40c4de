//! The request parser: a raw text buffer becomes a structured request or
//! a classified parse error.  [`spec_parse`] is the exact model: locate
//! the blank-line separator, split the head into lines, split the
//! request line into three tokens, convert method and version through
//! their closed vocabularies, read the header lines, derive the origin
//! from the Host header, and take everything after the separator as the
//! body, verbatim.

use vstd::prelude::*;
use vstd::string::StringExecFns;
use vstd::utf8::encode_utf8;
use crate::http::enums::{HttpMethod, HttpVersion};
use crate::http::headers::{HttpHeaders, assoc_find, spec_insert};
use crate::http::request::{HttpRequest, ReqView};
use crate::http::util::errors::{HttpParseError, ParseErrView};
use crate::text::chars::{lower, chars_of, chars_to_string, subrange_chars};
use crate::text::numbers::{spec_parse_u16, parse_u16_chars};
use crate::text::scan::{
    find_char_end, find_char_at, rfind_char_idx, rfind_char_vec, find_sep_end, find_sep_at,
    split_lines, split_lines_vec, split_char, split_char_from, split_char_vec, trim, trim_vec,
};

verus! {

/// The port a port suffix names, with `80` for anything `str::parse`
/// would reject.
pub open spec fn spec_port_or_80(s: Seq<char>) -> u16 {
    match spec_parse_u16(s) {
        Some(p) => p,
        None => 80,
    }
}

/// A host split at its last colon, as plain host names and IPv4
/// addresses are split.
pub open spec fn spec_rsplit_host(h: Seq<char>) -> (Seq<char>, u16) {
    let i = rfind_char_idx(h, ':');
    if i >= 0 {
        (h.subrange(0, i), spec_port_or_80(h.subrange(i + 1, h.len() as int)))
    } else {
        (h, 80)
    }
}

/// What [`parse_host_and_port`] returns: a bracketed IPv6 literal keeps
/// everything through the closing bracket as the host, with an optional
/// `:port` after it; anything else splits at its last colon; an absent
/// or malformed port defaults to 80.
pub open spec fn spec_host_port(h: Seq<char>) -> (Seq<char>, u16) {
    if h.len() > 0 && h[0] == '[' {
        let rb = find_char_end(h, ']', 0);
        if rb < h.len() {
            let hostpart = h.subrange(0, rb + 1);
            if rb + 1 < h.len() && h[rb + 1] == ':' {
                (hostpart, spec_port_or_80(h.subrange(rb + 2, h.len() as int)))
            } else {
                (hostpart, 80)
            }
        } else {
            spec_rsplit_host(h)
        }
    } else {
        spec_rsplit_host(h)
    }
}

/// The header pairs read from `lines[i..]`, inserted in order into
/// `acc`: each line is trimmed, a blank line ends the walk, a line
/// without a colon is an error naming that line, and every other line
/// splits at its first colon into a trimmed name and a trimmed value.
pub open spec fn spec_header_lines(
    lines: Seq<Seq<char>>,
    i: int,
    acc: Seq<(Seq<char>, Seq<char>)>,
) -> Result<Seq<(Seq<char>, Seq<char>)>, ParseErrView>
    decreases lines.len() - i,
        when 0 <= i <= lines.len()
{
    if i >= lines.len() {
        Ok(acc)
    } else {
        let line = trim(lines[i]);
        if line.len() == 0 {
            Ok(acc)
        } else {
            let c = find_char_end(line, ':', 0);
            if c == line.len() {
                Err(ParseErrView::MalformedRequest("Invalid header line: "@ + line))
            } else {
                let key = trim(line.subrange(0, c));
                let value = trim(line.subrange(c + 1, line.len() as int));
                spec_header_lines(lines, i + 1, spec_insert(acc, key, value))
            }
        }
    }
}

/// What [`parse_http_request`] returns, for every input.
pub open spec fn spec_parse(s: Seq<char>) -> Result<ReqView, ParseErrView> {
    let sep = find_sep_end(s, 0);
    if sep == s.len() {
        Err(ParseErrView::MalformedRequest("No headers found"@))
    } else {
        let head = s.subrange(0, sep);
        let lines = split_lines(head);
        if lines.len() == 0 {
            Err(ParseErrView::MalformedRequest("Malformed Request Line"@))
        } else {
            let parts = split_char(lines[0], ' ');
            if parts.len() < 3 {
                if trim(parts[0]).len() == 0 {
                    Err(ParseErrView::MalformedRequest("Missing HTTP method"@))
                } else if parts.len() == 1 || trim(parts[1]).len() == 0 {
                    Err(ParseErrView::MalformedRequest("Missing Path"@))
                } else {
                    Err(ParseErrView::MalformedRequest("Missing HTTP version"@))
                }
            } else {
                let m = trim(parts[0]);
                let p = trim(parts[1]);
                let v = trim(parts[2]);
                if m.len() == 0 {
                    Err(ParseErrView::MalformedRequest("Missing HTTP method"@))
                } else if p.len() == 0 {
                    Err(ParseErrView::MalformedRequest("Missing Path"@))
                } else if v.len() == 0 {
                    Err(ParseErrView::MalformedRequest("Missing HTTP version"@))
                } else if HttpMethod::spec_from_token(m) is None {
                    Err(ParseErrView::UnsupportedMethod(m))
                } else if HttpVersion::spec_from_token(v) is None {
                    Err(ParseErrView::UnsupportedHttpVersion(v))
                } else {
                    match spec_header_lines(lines, 1, Seq::<(Seq<char>, Seq<char>)>::empty()) {
                        Err(e) => Err(e),
                        Ok(headers) => {
                            let host = match assoc_find(headers, lower("host"@)) {
                                Some(h) => h,
                                None => "127.0.0.1"@,
                            };
                            let origin = spec_host_port(host);
                            Ok(
                                ReqView {
                                    method: HttpMethod::spec_from_token(m)->0,
                                    path: p,
                                    version: HttpVersion::spec_from_token(v)->0,
                                    headers,
                                    origin_host: origin.0,
                                    origin_port: origin.1,
                                    body: Some(encode_utf8(s.subrange(sep + 4, s.len() as int))),
                                },
                            )
                        },
                    }
                }
            }
        }
    }
}

/// Splitting on a character always yields at least one segment.
proof fn lemma_split_char_nonempty(s: Seq<char>, c: char)
    ensures
        split_char(s, c).len() >= 1,
{
    crate::text::scan::lemma_find_char_end(s, c, 0);
}

fn port_or_80(v: &Vec<char>) -> (r: u16)
    ensures
        r == spec_port_or_80(v@),
{
    match parse_u16_chars(v) {
        Some(p) => p,
        None => 80,
    }
}

/// Splits a Host header value into host and port, as [`spec_host_port`]
/// describes.  Parsing is lenient by design: a malformed port defaults
/// to 80 rather than failing, because the origin is advisory metadata.
pub fn parse_host_and_port(host: &str) -> (r: (String, u16))
    ensures
        r.0@ == spec_host_port(host@).0,
        r.1 == spec_host_port(host@).1,
{
    let h = chars_of(host);
    if h.len() > 0 && h[0] == '[' {
        let rb = find_char_at(&h, ']', 0);
        if rb < h.len() {
            let hostpart = subrange_chars(&h, 0, rb + 1);
            if rb + 1 < h.len() && h[rb + 1] == ':' {
                let portchars = subrange_chars(&h, rb + 2, h.len());
                let port = port_or_80(&portchars);
                return (chars_to_string(&hostpart), port);
            } else {
                return (chars_to_string(&hostpart), 80);
            }
        }
    }
    match rfind_char_vec(&h, ':') {
        Some(i) => {
            proof {
                crate::text::scan::lemma_rfind_char_idx(h@, ':');
            }
            let pre = subrange_chars(&h, 0, i);
            let post = subrange_chars(&h, i + 1, h.len());
            let port = port_or_80(&post);
            (chars_to_string(&pre), port)
        },
        None => (chars_to_string(&h), 80),
    }
}

/// Parses one complete request buffer, [`spec_parse`] exactly: a
/// structured request, or the parse error that classifies the failure.
pub fn parse_http_request(request: &str) -> (r: Result<HttpRequest, HttpParseError>)
    ensures
        match r {
            Ok(req) => spec_parse(request@) == Ok::<ReqView, ParseErrView>(req@)
                && req.headers.wf(),
            Err(e) => spec_parse(request@) == Err::<ReqView, ParseErrView>(e@),
        },
{
    let chars = chars_of(request);
    let sep = find_sep_at(&chars, 0);
    if sep == chars.len() {
        return Err(HttpParseError::MalformedRequest(String::from_str("No headers found")));
    }
    let head = subrange_chars(&chars, 0, sep);
    let lines = split_lines_vec(&head);
    let ghost lv = lines.deep_view();
    proof {
        assert(lv == split_lines(request@.subrange(0, sep as int)));
        assert(lv.len() == lines@.len());
    }
    if lines.len() == 0 {
        return Err(HttpParseError::MalformedRequest(String::from_str("Malformed Request Line")));
    }
    proof {
        assert(lv[0] =~= lines@[0]@);
    }
    let parts = split_char_vec(&lines[0], ' ');
    let ghost pv = parts.deep_view();
    proof {
        assert(pv == split_char(lv[0], ' '));
        assert(pv.len() == parts@.len());
        lemma_split_char_nonempty(lv[0], ' ');
        assert(pv[0] =~= parts@[0]@);
    }
    if parts.len() < 3 {
        let t0 = trim_vec(&parts[0]);
        if t0.len() == 0 {
            return Err(HttpParseError::MalformedRequest(String::from_str("Missing HTTP method")));
        }
        if parts.len() == 1 {
            return Err(HttpParseError::MalformedRequest(String::from_str("Missing Path")));
        }
        proof {
            assert(pv[1] =~= parts@[1]@);
        }
        let t1 = trim_vec(&parts[1]);
        if t1.len() == 0 {
            return Err(HttpParseError::MalformedRequest(String::from_str("Missing Path")));
        }
        return Err(HttpParseError::MalformedRequest(String::from_str("Missing HTTP version")));
    }
    proof {
        assert(pv[0] =~= parts@[0]@);
        assert(pv[1] =~= parts@[1]@);
        assert(pv[2] =~= parts@[2]@);
    }
    let m = trim_vec(&parts[0]);
    let p = trim_vec(&parts[1]);
    let v = trim_vec(&parts[2]);
    if m.len() == 0 {
        return Err(HttpParseError::MalformedRequest(String::from_str("Missing HTTP method")));
    }
    if p.len() == 0 {
        return Err(HttpParseError::MalformedRequest(String::from_str("Missing Path")));
    }
    if v.len() == 0 {
        return Err(HttpParseError::MalformedRequest(String::from_str("Missing HTTP version")));
    }
    let method = match HttpMethod::from_chars(&m) {
        Some(x) => x,
        None => {
            return Err(HttpParseError::UnsupportedMethod(chars_to_string(&m)));
        },
    };
    let version = match HttpVersion::from_chars(&v) {
        Some(x) => x,
        None => {
            return Err(HttpParseError::UnsupportedHttpVersion(chars_to_string(&v)));
        },
    };
    let mut headers = HttpHeaders::new();
    let mut i: usize = 1;
    let mut done = false;
    let mut bad_line: Option<String> = None;
    while i < lines.len() && !done
        invariant
            1 <= i <= lines@.len(),
            lv == lines.deep_view(),
            lv.len() == lines@.len(),
            forall|j: int| 0 <= j < lv.len() ==> (#[trigger] lines@[j])@ == lv[j],
            headers.wf(),
            spec_header_lines(lv, 1, Seq::<(Seq<char>, Seq<char>)>::empty())
                == spec_header_lines(lv, i as int, headers@),
            done && bad_line is None ==> spec_header_lines(lv, i as int, headers@) == Ok::<
                Seq<(Seq<char>, Seq<char>)>, ParseErrView>(headers@),
            bad_line matches Some(msg) ==> done && spec_header_lines(
                lv, 1, Seq::<(Seq<char>, Seq<char>)>::empty()) == Err::<
                Seq<(Seq<char>, Seq<char>)>, ParseErrView>(ParseErrView::MalformedRequest(msg@)),
        decreases lines@.len() - i + (if done { 0int } else { 1int }),
    {
        let line = trim_vec(&lines[i]);
        proof {
            assert(lines@[i as int]@ == lv[i as int]);
            assert(line@ == trim(lv[i as int]));
        }
        if line.len() == 0 {
            done = true;
        } else {
            let c = find_char_at(&line, ':', 0);
            if c == line.len() {
                let line_text = chars_to_string(&line);
                let msg = String::from_str("Invalid header line: ").concat(line_text.as_str());
                proof {
                    assert(spec_header_lines(lv, i as int, headers@) == Err::<
                        Seq<(Seq<char>, Seq<char>)>, ParseErrView>(ParseErrView::MalformedRequest(
                        msg@)));
                }
                bad_line = Some(msg);
                done = true;
            } else {
                let key_chars = trim_vec(&subrange_chars(&line, 0, c));
                let val_chars = trim_vec(&subrange_chars(&line, c + 1, line.len()));
                let ghost h0 = headers@;
                headers.insert(chars_to_string(&key_chars), chars_to_string(&val_chars));
                proof {
                    assert(spec_header_lines(lv, i as int, h0) == spec_header_lines(
                        lv, i + 1, headers@));
                }
                i = i + 1;
            }
        }
    }
    if let Some(msg) = bad_line {
        return Err(HttpParseError::MalformedRequest(msg));
    }
    let origin = match headers.get("host") {
        Some(h) => parse_host_and_port(h.as_str()),
        None => parse_host_and_port("127.0.0.1"),
    };
    let body_chars = subrange_chars(&chars, sep + 4, chars.len());
    let body_text = chars_to_string(&body_chars);
    let body = body_text.as_str().as_bytes_vec();
    let req = HttpRequest {
        method,
        path: chars_to_string(&p),
        version,
        headers,
        origin,
        body: Some(body),
    };
    proof {
        let s = request@;
        assert(spec_header_lines(lv, 1, Seq::<(Seq<char>, Seq<char>)>::empty()) == Ok::<
            Seq<(Seq<char>, Seq<char>)>, ParseErrView>(req.headers@));
        let spec_host = match assoc_find(req.headers@, lower("host"@)) {
            Some(h) => h,
            None => "127.0.0.1"@,
        };
        assert(req.origin.0@ == spec_host_port(spec_host).0 && req.origin.1 == spec_host_port(
            spec_host).1);
        assert(spec_parse(s) matches Ok(rv) && rv =~= req@);
    }
    Ok(req)
}

/// For every input without a blank-line separator, parsing fails as a
/// malformed request; it is never classified as an empty request.
pub proof fn lemma_parse_no_separator(s: Seq<char>)
    requires
        forall|i: int| !crate::text::scan::is_crlfcrlf_at(s, i),
    ensures
        spec_parse(s) == Err::<ReqView, ParseErrView>(
            ParseErrView::MalformedRequest("No headers found"@),
        ),
{
    crate::text::scan::lemma_find_sep_end(s, 0);
    let f = find_sep_end(s, 0);
    if f < s.len() {
        assert(crate::text::scan::is_crlfcrlf_at(s, f));
    }
}

/// A failing header walk is always classified as a malformed request.
proof fn lemma_header_lines_err(
    lines: Seq<Seq<char>>,
    i: int,
    acc: Seq<(Seq<char>, Seq<char>)>,
)
    requires
        0 <= i <= lines.len(),
    ensures
        spec_header_lines(lines, i, acc) matches Err(e) ==> e is MalformedRequest,
    decreases lines.len() - i,
{
    if i < lines.len() {
        let line = trim(lines[i]);
        if line.len() > 0 {
            let c = find_char_end(line, ':', 0);
            if c != line.len() {
                let key = trim(line.subrange(0, c));
                let value = trim(line.subrange(c + 1, line.len() as int));
                lemma_header_lines_err(lines, i + 1, spec_insert(acc, key, value));
            }
        }
    }
}

/// No input is ever classified as an empty request: the taxonomy keeps
/// the variant, but every parse failure carries a more specific
/// classification.
pub proof fn lemma_parse_never_empty_request(s: Seq<char>)
    ensures
        !(spec_parse(s) matches Err(ParseErrView::EmptyRequest)),
{
    let sep = find_sep_end(s, 0);
    if sep != s.len() {
        let head = s.subrange(0, sep);
        let lines = split_lines(head);
        if lines.len() > 0 {
            lemma_header_lines_err(lines, 1, Seq::<(Seq<char>, Seq<char>)>::empty());
        }
    }
}

/// One header line of the wire form the engine reads: a name, a colon,
/// a value.
pub open spec fn header_line_of(p: (Seq<char>, Seq<char>)) -> Seq<char> {
    p.0 + seq![':'] + p.1
}

/// A header section as it stands on the wire: each pair as its line,
/// each line after a line break.
pub open spec fn header_block(hs: Seq<(Seq<char>, Seq<char>)>) -> Seq<char>
    decreases hs.len(),
{
    if hs.len() == 0 {
        Seq::<char>::empty()
    } else {
        seq!['\r', '\n'] + header_line_of(hs[0]) + header_block(hs.drop_first())
    }
}

/// A well-formed wire header name: non-empty, without whitespace and
/// without a colon.
pub open spec fn wf_header_name(n: Seq<char>) -> bool {
    &&& n.len() > 0
    &&& forall|i: int| 0 <= i < n.len() ==> !crate::text::chars::is_ws_char(#[trigger] n[i]) && n[i]
        != ':'
}

/// A well-formed wire header value: free of line breaks, with no leading
/// or trailing whitespace.
pub open spec fn wf_header_value(v: Seq<char>) -> bool {
    &&& forall|i: int| 0 <= i < v.len() ==> (#[trigger] v[i]) != '\r' && v[i] != '\n'
    &&& trim(v) == v
}

/// Every pair of a header section is well-formed on the wire.
pub open spec fn wf_header_pairs(hs: Seq<(Seq<char>, Seq<char>)>) -> bool {
    forall|j: int| 0 <= j < hs.len() ==> wf_header_name((#[trigger] hs[j]).0) && wf_header_value(
        hs[j].1)
}

/// In a well-formed header block every carriage return starts a line
/// break that a name follows.
proof fn lemma_header_block_safe(hs: Seq<(Seq<char>, Seq<char>)>)
    requires
        wf_header_pairs(hs),
    ensures
        forall|j: int|
            0 <= j < header_block(hs).len() && (#[trigger] header_block(hs)[j]) == '\r' ==> j + 2
                < header_block(hs).len() && header_block(hs)[j + 1] == '\n' && header_block(
                hs)[j + 2] != '\r' && header_block(hs)[j + 2] != '\n',
    decreases hs.len(),
{
    if hs.len() > 0 {
        let b = header_block(hs);
        let line1 = header_line_of(hs[0]);
        let rest = header_block(hs.drop_first());
        let ll = line1.len() as int;
        assert(wf_header_name(hs[0].0) && wf_header_value(hs[0].1));
        lemma_header_block_safe(hs.drop_first());
        assert(b.len() == 2 + ll + rest.len());
        assert forall|j: int| 0 <= j < b.len() && (#[trigger] b[j]) == '\r' implies j + 2
            < b.len() && b[j + 1] == '\n' && b[j + 2] != '\r' && b[j + 2] != '\n' by {
            let n = hs[0].0;
            let v = hs[0].1;
            if j == 0 {
                assert(b[1] == '\n');
                assert(b[2] == line1[0]);
                assert(line1[0] == n[0]);
                assert(!crate::text::chars::is_ws_char(n[0]));
                assert(crate::text::chars::is_ws_char('\r'));
                assert(crate::text::chars::is_ws_char('\n'));
            } else if j < 2 + ll {
                assert(b[j] == line1[j - 2]);
                if j - 2 < n.len() {
                    assert(line1[j - 2] == n[j - 2]);
                    assert(crate::text::chars::is_ws_char('\r'));
                    assert(false);
                } else if j - 2 == n.len() {
                    assert(line1[j - 2] == ':');
                    assert(false);
                } else {
                    assert(line1[j - 2] == v[j - 2 - n.len() - 1]);
                    assert(false);
                }
            } else {
                assert(b[j] == rest[j - (2 + ll)]);
                assert(b[j + 1] == rest[j + 1 - (2 + ll)]);
                assert(b[j + 2] == rest[j + 2 - (2 + ll)]);
            }
        }
    }
}

/// The lines of a first line followed by a well-formed header block: the
/// first line, then one line per pair.
proof fn lemma_block_lines(line0: Seq<char>, hs: Seq<(Seq<char>, Seq<char>)>)
    requires
        line0.len() > 0,
        forall|i: int| 0 <= i < line0.len() ==> (#[trigger] line0[i]) != '\r' && line0[i]
            != '\n',
        wf_header_pairs(hs),
    ensures
        split_lines(line0 + header_block(hs)) =~~= seq![line0] + Seq::new(
            hs.len(), |j: int| header_line_of(hs[j])),
    decreases hs.len(),
{
    let s = line0 + header_block(hs);
    let ll = line0.len() as int;
    if hs.len() == 0 {
        assert(s =~= line0);
        crate::text::scan::lemma_find_char_from_is(line0, '\n', 0, ll);
        assert(line0.subrange(0, ll) =~= line0);
        assert(split_lines(line0) =~~= seq![line0]);
    } else {
        let line1 = header_line_of(hs[0]);
        let rest = hs.drop_first();
        assert(wf_header_name(hs[0].0) && wf_header_value(hs[0].1));
        assert(s[ll] == '\r' && s[ll + 1] == '\n');
        assert(forall|j: int| 0 <= j < ll ==> s[j] == line0[j]);
        crate::text::scan::lemma_find_char_from_is(s, '\n', 0, ll + 1);
        assert(s.subrange(0, ll + 1) =~= line0 + seq!['\r']);
        assert(crate::text::scan::strip_cr(s.subrange(0, ll + 1)) =~= line0);
        crate::text::scan::lemma_split_lines_shift(s, ll + 2);
        assert(s.subrange(ll + 2, s.len() as int) =~= line1 + header_block(rest));
        assert forall|i: int| 0 <= i < line1.len() implies (#[trigger] line1[i]) != '\r'
            && line1[i] != '\n' by {
            let n = hs[0].0;
            let v = hs[0].1;
            if i < n.len() {
                assert(line1[i] == n[i]);
                assert(crate::text::chars::is_ws_char('\r'));
                assert(crate::text::chars::is_ws_char('\n'));
            } else if i == n.len() {
                assert(line1[i] == ':');
            } else {
                assert(line1[i] == v[i - n.len() - 1]);
            }
        }
        lemma_block_lines(line1, rest);
        assert(split_lines(s) =~~= seq![line0] + split_lines(line1 + header_block(rest)));
        assert(split_lines(s) =~~= seq![line0] + Seq::new(hs.len(), |j: int| header_line_of(
            hs[j])));
    }
}

/// Walking well-formed header lines inserts exactly their pairs, in
/// order.
proof fn lemma_block_walk(
    lines: Seq<Seq<char>>,
    i: int,
    acc: Seq<(Seq<char>, Seq<char>)>,
    hs: Seq<(Seq<char>, Seq<char>)>,
)
    requires
        0 <= i <= lines.len(),
        lines.len() - i == hs.len(),
        wf_header_pairs(hs),
        forall|j: int| 0 <= j < hs.len() ==> lines[i + j] == header_line_of(#[trigger] hs[j]),
    ensures
        spec_header_lines(lines, i, acc) == Ok::<Seq<(Seq<char>, Seq<char>)>, ParseErrView>(
            crate::http::headers::spec_inserts(acc, hs)),
    decreases hs.len(),
{
    if hs.len() > 0 {
        let n = hs[0].0;
        let v = hs[0].1;
        let line = lines[i];
        assert(wf_header_name(n) && wf_header_value(v));
        assert(line == header_line_of(hs[0]));
        assert(line.len() == n.len() + 1 + v.len());
        assert(line[0] == n[0]);
        if v.len() > 0 {
            crate::text::scan::lemma_trimmed_ends(v);
            assert(line.last() == v.last());
        } else {
            assert(line.last() == ':');
        }
        assert(crate::text::chars::is_ws_char(' '));
        crate::text::scan::lemma_trim_clean(line);
        assert(trim(line) == line);
        crate::text::scan::lemma_find_char_from_is(line, ':', 0, n.len() as int);
        assert(line.subrange(0, n.len() as int) =~= n);
        assert(line.subrange(n.len() as int + 1, line.len() as int) =~= v);
        crate::text::scan::lemma_trim_ws_free(n);
        lemma_block_walk(lines, i + 1, crate::http::headers::spec_insert(acc, n, v),
            hs.drop_first());
        assert forall|j: int| 0 <= j < hs.drop_first().len() implies lines[(i + 1) + j]
            == header_line_of(#[trigger] hs.drop_first()[j]) by {
            assert(hs.drop_first()[j] == hs[j + 1]);
        }
    }
}

/// A well-formed request parses to exactly its parts: for tokens free of
/// whitespace with a recognised method token `m`, a non-empty path `p`
/// and a recognised version token `v`, and a well-formed header section
/// `hs`, parsing the text
/// `m + " " + p + " " + v + header lines + "\r\n\r\n" + body`
/// succeeds, and the returned method, path, version, headers and body
/// exactly reflect the input: the headers are the pairs inserted in
/// order, and the body is taken verbatim.
#[verifier::rlimit(100)]
pub proof fn lemma_parse_well_formed_request(
    m: Seq<char>,
    p: Seq<char>,
    v: Seq<char>,
    hs: Seq<(Seq<char>, Seq<char>)>,
    body: Seq<char>,
)
    requires
        HttpMethod::spec_from_token(m) is Some,
        HttpVersion::spec_from_token(v) is Some,
        p.len() > 0,
        forall|i: int| 0 <= i < m.len() ==> !crate::text::chars::is_ws_char(#[trigger] m[i]),
        forall|i: int| 0 <= i < p.len() ==> !crate::text::chars::is_ws_char(#[trigger] p[i]),
        forall|i: int| 0 <= i < v.len() ==> !crate::text::chars::is_ws_char(#[trigger] v[i]),
        wf_header_pairs(hs),
    ensures
        ({
            let raw = m + seq![' '] + p + seq![' '] + v + header_block(hs) + seq![
                '\r', '\n', '\r', '\n'] + body;
            &&& spec_parse(raw) matches Ok(rv)
            &&& spec_parse(raw)->Ok_0.method == HttpMethod::spec_from_token(m)->0
            &&& spec_parse(raw)->Ok_0.path == p
            &&& spec_parse(raw)->Ok_0.version == HttpVersion::spec_from_token(v)->0
            &&& spec_parse(raw)->Ok_0.headers == crate::http::headers::spec_inserts(
                Seq::<(Seq<char>, Seq<char>)>::empty(), hs)
            &&& spec_parse(raw)->Ok_0.body == Some(encode_utf8(body))
        }),
{
    reveal_strlit("GET");
    reveal_strlit("POST");
    reveal_strlit("PUT");
    reveal_strlit("DELETE");
    reveal_strlit("HEAD");
    reveal_strlit("OPTIONS");
    reveal_strlit("HTTP/1.0");
    reveal_strlit("HTTP/1.1");
    reveal_strlit("HTTP/2.0");
    reveal_strlit("HTTP/2");
    assert(m.len() > 0);
    assert(v.len() > 0);
    let ml = m.len() as int;
    let pl = p.len() as int;
    let vl = v.len() as int;
    let reqline = m + seq![' '] + p + seq![' '] + v;
    let block = header_block(hs);
    let head = reqline + block;
    let raw = m + seq![' '] + p + seq![' '] + v + header_block(hs) + seq![
        '\r', '\n', '\r', '\n'] + body;
    let rl = reqline.len() as int;
    let hl = head.len() as int;
    assert(rl == ml + 1 + pl + 1 + vl);
    // the exact character at every position of the request line
    assert(forall|j: int| 0 <= j < ml ==> reqline[j] == m[j]);
    assert(reqline[ml] == ' ');
    assert(forall|j: int| 0 <= j < pl ==> reqline[ml + 1 + j] == p[j]);
    assert(reqline[ml + 1 + pl] == ' ');
    assert(forall|j: int| 0 <= j < vl ==> reqline[ml + pl + 2 + j] == v[j]);
    assert(forall|j: int| 0 <= j < rl ==> raw[j] == reqline[j]);
    assert(forall|j: int| 0 <= j < block.len() ==> raw[rl + j] == block[j]);
    assert(forall|j: int| 0 <= j < hl ==> raw[j] == head[j]);
    assert(raw[hl] == '\r' && raw[hl + 1] == '\n' && raw[hl + 2] == '\r' && raw[hl + 3]
        == '\n');
    assert(forall|j: int| 0 <= j < body.len() ==> raw[hl + 4 + j] == body[j]);
    assert(raw.len() == hl + 4 + body.len());
    // no whitespace in the request line but the two separating spaces
    assert forall|j: int| 0 <= j < rl && j != ml && j != ml + 1 + pl implies
        !crate::text::chars::is_ws_char(reqline[j]) by {
        if j < ml {
        } else if j < ml + 1 + pl {
            assert(reqline[j] == p[j - (ml + 1)]);
        } else {
            assert(reqline[j] == v[j - (ml + pl + 2)]);
        }
    }
    // the first separator stands right after the head
    lemma_header_block_safe(hs);
    assert forall|j: int| 0 <= j < hl implies !crate::text::scan::is_crlfcrlf_at(raw, j) by {
        if crate::text::scan::is_crlfcrlf_at(raw, j) {
            assert(raw[j] == '\r');
            assert(crate::text::chars::is_ws_char('\r'));
            if j < rl {
                assert(reqline[j] == '\r');
                assert(reqline[ml] == ' ' && reqline[ml + 1 + pl] == ' ');
                assert(false);
            } else {
                assert(block[j - rl] == '\r');
                assert(j - rl + 2 < block.len());
                assert(block[j - rl + 2] != '\r');
                assert(raw[j + 2] == block[j - rl + 2]);
                assert(false);
            }
        }
    }
    crate::text::scan::lemma_find_sep_end(raw, 0);
    let f = find_sep_end(raw, 0);
    assert(crate::text::scan::is_crlfcrlf_at(raw, hl));
    assert(f == hl) by {
        if f < hl {
            assert(crate::text::scan::is_crlfcrlf_at(raw, f));
        }
        if f > hl {
            assert(!crate::text::scan::is_crlfcrlf_at(raw, hl));
        }
    }
    assert(raw.subrange(0, hl) =~= head);
    // the head splits into the request line and one line per header
    assert forall|i: int| 0 <= i < rl implies (#[trigger] reqline[i]) != '\r' && reqline[i]
        != '\n' by {
        assert(crate::text::chars::is_ws_char('\r'));
        assert(crate::text::chars::is_ws_char('\n'));
        if i != ml && i != ml + 1 + pl {
        }
    }
    lemma_block_lines(reqline, hs);
    let lines = split_lines(head);
    assert(lines =~~= seq![reqline] + Seq::new(hs.len(), |j: int| header_line_of(hs[j])));
    assert(lines.len() == 1 + hs.len());
    assert(lines[0] == reqline);
    // the request line splits into exactly the three tokens
    assert forall|j: int| 0 <= j < ml implies reqline[j] != ' ' by {
        assert(crate::text::chars::is_ws_char(' '));
    }
    crate::text::scan::lemma_find_char_from_is(reqline, ' ', 0, ml);
    assert(reqline.subrange(0, ml) =~= m);
    assert forall|j: int| ml + 1 <= j < ml + 1 + pl implies reqline[j] != ' ' by {
        assert(reqline[j] == p[j - (ml + 1)]);
        assert(crate::text::chars::is_ws_char(' '));
    }
    crate::text::scan::lemma_find_char_from_is(reqline, ' ', ml + 1, ml + 1 + pl);
    assert(reqline.subrange(ml + 1, ml + 1 + pl) =~= p);
    assert forall|j: int| ml + pl + 2 <= j < rl implies reqline[j] != ' ' by {
        assert(reqline[j] == v[j - (ml + pl + 2)]);
        assert(crate::text::chars::is_ws_char(' '));
    }
    crate::text::scan::lemma_find_char_from_is(reqline, ' ', ml + pl + 2, rl);
    assert(reqline.subrange(ml + pl + 2, rl) =~= v);
    let parts = split_char(reqline, ' ');
    assert(split_char_from(reqline, ' ', ml + pl + 2) =~~= seq![v]);
    assert(split_char_from(reqline, ' ', ml + 1) =~~= seq![p, v]);
    assert(parts =~~= seq![m, p, v]);
    // trimming changes none of the tokens
    crate::text::scan::lemma_trim_ws_free(m);
    crate::text::scan::lemma_trim_ws_free(p);
    crate::text::scan::lemma_trim_ws_free(v);
    // the header walk inserts exactly the pairs, in order
    assert forall|j: int| 0 <= j < hs.len() implies lines[1 + j] == header_line_of(
        #[trigger] hs[j]) by {
        assert(lines[1 + j] == Seq::new(hs.len(), |k: int| header_line_of(hs[k]))[j]);
    }
    lemma_block_walk(lines, 1, Seq::<(Seq<char>, Seq<char>)>::empty(), hs);
    // the body is everything after the separator
    assert(raw.subrange(hl + 4, raw.len() as int) =~= body);
}

} // verus!
