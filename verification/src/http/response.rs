//! The response: a status, headers and a body of bytes.  Every
//! constructor sets Content-Type, a Content-Length computed from the
//! actual body length, and the Server identifier; rendering emits the
//! exact wire form.

use vstd::prelude::*;
use vstd::string::StringExecFns;
use vstd::utf8::{valid_utf8, decode_utf8, encode_utf8};
use crate::http::enums::HttpStatus;
use crate::http::headers::{HttpHeaders, spec_insert, lemma_assoc_index};
use crate::text::chars::{lower, chars_to_string};
use crate::text::numbers::{usize_to_string, dec_str};
use crate::text::utf8::{utf8_is_valid, utf8_lossy_vec, lemma_utf8_lossy_valid};

verus! {

/// The mathematical shape of a response.
#[verifier::ext_equal]
pub struct RespView {
    pub status: HttpStatus,
    pub headers: Seq<(Seq<char>, Seq<char>)>,
    pub body: Seq<u8>,
}

/// The default headers every constructor sets, in stored order: the
/// given Content-Type, a Content-Length of `len`, and the Server
/// identifier.
pub open spec fn response_headers(ctype: Seq<char>, len: nat) -> Seq<(Seq<char>, Seq<char>)> {
    seq![
        (lower("Content-Type"@), ctype),
        (lower("Content-Length"@), dec_str(len)),
        (lower("Server"@), "Orion/1.0"@),
    ]
}

/// The shape of a response built by [`HttpResponse::text`].
pub open spec fn text_response_view(status: HttpStatus, body: Seq<char>) -> RespView {
    RespView {
        status,
        headers: response_headers("text/plain; charset=utf-8"@, encode_utf8(body).len()),
        body: encode_utf8(body),
    }
}

/// The shape of a response built by [`HttpResponse::html`].
pub open spec fn html_response_view(status: HttpStatus, body: Seq<char>) -> RespView {
    RespView {
        status,
        headers: response_headers("text/html; charset=utf-8"@, encode_utf8(body).len()),
        body: encode_utf8(body),
    }
}

/// The shape of a response built by [`HttpResponse::json`].
pub open spec fn json_response_view(status: HttpStatus, body: Seq<char>) -> RespView {
    RespView {
        status,
        headers: response_headers("application/json"@, encode_utf8(body).len()),
        body: encode_utf8(body),
    }
}

/// An HTTP response under construction or ready to render.
#[derive(Debug)]
pub struct HttpResponse {
    pub status: HttpStatus,
    pub headers: HttpHeaders,
    pub body: Vec<u8>,
}

impl View for HttpResponse {
    type V = RespView;

    open spec fn view(&self) -> RespView {
        RespView { status: self.status, headers: self.headers@, body: self.body@ }
    }
}

/// The three default header names are pairwise distinct, and distinct
/// from the folded `Connection` name.
pub proof fn lemma_default_header_names()
    ensures
        lower("Content-Type"@) != lower("Content-Length"@),
        lower("Content-Type"@) != lower("Server"@),
        lower("Content-Length"@) != lower("Server"@),
        lower("Connection"@) != lower("Content-Type"@),
        lower("Connection"@) != lower("Content-Length"@),
        lower("Connection"@) != lower("Server"@),
{
    reveal_strlit("Content-Type");
    reveal_strlit("Content-Length");
    reveal_strlit("Server");
    reveal_strlit("Connection");
    assert(lower("Content-Type"@).len() == 12);
    assert(lower("Content-Length"@).len() == 14);
    assert(lower("Server"@).len() == 6);
    assert(lower("Connection"@).len() == 10);
}

impl HttpResponse {
    /// The base constructor: status, `text/plain` Content-Type, a
    /// Content-Length computed from the body, and the Server identifier.
    fn standard(status: HttpStatus, body: Vec<u8>) -> (r: HttpResponse)
        ensures
            r@.status == status,
            r@.headers == response_headers("text/plain"@, body@.len()),
            r@.body == body@,
            r.headers.wf(),
    {
        let mut headers = HttpHeaders::new();
        let len_text = usize_to_string(body.len());
        headers.insert(String::from_str("Content-Type"), String::from_str("text/plain"));
        let ghost m1 = headers@;
        proof {
            lemma_default_header_names();
            assert(m1 =~= seq![(lower("Content-Type"@), "text/plain"@)]);
        }
        headers.insert(String::from_str("Content-Length"), len_text);
        let ghost m2 = headers@;
        proof {
            lemma_assoc_index(m1, lower("Content-Length"@));
            assert(m2 =~= seq![
                (lower("Content-Type"@), "text/plain"@),
                (lower("Content-Length"@), dec_str(body@.len())),
            ]);
        }
        headers.insert(String::from_str("Server"), String::from_str("Orion/1.0"));
        proof {
            lemma_assoc_index(m2, lower("Server"@));
            assert(headers@ =~= response_headers("text/plain"@, body@.len()));
        }
        HttpResponse { status, headers, body }
    }

    /// A plain-text response: [`text_response_view`] exactly.
    pub fn text(status: HttpStatus, body: String) -> (r: HttpResponse)
        ensures
            r@ =~= text_response_view(status, body@),
            r.headers.wf(),
    {
        let bytes = body.as_str().as_bytes_vec();
        let mut r = HttpResponse::standard(status, bytes);
        r.headers.insert(
            String::from_str("Content-Type"),
            String::from_str("text/plain; charset=utf-8"),
        );
        proof {
            lemma_default_header_names();
            lemma_assoc_index(response_headers("text/plain"@, r@.body.len()),
                lower("Content-Type"@));
            assert(r.headers@ =~= text_response_view(status, body@).headers);
        }
        r
    }

    /// An HTML response: [`html_response_view`] exactly.
    pub fn html(status: HttpStatus, body: String) -> (r: HttpResponse)
        ensures
            r@ =~= html_response_view(status, body@),
            r.headers.wf(),
    {
        let bytes = body.as_str().as_bytes_vec();
        let mut r = HttpResponse::standard(status, bytes);
        r.headers.insert(
            String::from_str("Content-Type"),
            String::from_str("text/html; charset=utf-8"),
        );
        proof {
            lemma_default_header_names();
            lemma_assoc_index(response_headers("text/plain"@, r@.body.len()),
                lower("Content-Type"@));
            assert(r.headers@ =~= html_response_view(status, body@).headers);
        }
        r
    }

    /// A JSON response: [`json_response_view`] exactly.
    pub fn json(status: HttpStatus, body: String) -> (r: HttpResponse)
        ensures
            r@ =~= json_response_view(status, body@),
            r.headers.wf(),
    {
        let bytes = body.as_str().as_bytes_vec();
        let mut r = HttpResponse::standard(status, bytes);
        r.headers.insert(
            String::from_str("Content-Type"),
            String::from_str("application/json"),
        );
        proof {
            lemma_default_header_names();
            lemma_assoc_index(response_headers("text/plain"@, r@.body.len()),
                lower("Content-Type"@));
            assert(r.headers@ =~= json_response_view(status, body@).headers);
        }
        r
    }

    /// The response with one more header inserted; status and body kept.
    pub fn with_header(self, key: String, value: String) -> (r: HttpResponse)
        requires
            self.headers.wf(),
        ensures
            r@.headers == spec_insert(self@.headers, key@, value@),
            r@.status == self@.status,
            r@.body == self@.body,
            r.headers.wf(),
    {
        let mut r = self;
        r.headers.insert(key, value);
        r
    }

    /// The body read as UTF-8 text: present exactly when its bytes are
    /// valid UTF-8.
    pub fn body_as_string(&self) -> (r: Option<String>)
        ensures
            r is Some <==> valid_utf8(self@.body),
            r is Some ==> r->0@ == decode_utf8(self@.body),
    {
        if utf8_is_valid(&self.body) {
            proof {
                lemma_utf8_lossy_valid(self.body@);
            }
            let chars = utf8_lossy_vec(&self.body);
            Some(chars_to_string(&chars))
        } else {
            None
        }
    }

    /// The numeric status code of the response.
    pub fn status_code(&self) -> (r: u16)
        ensures
            r == self@.status.spec_code(),
    {
        self.status.code()
    }
}

/// One rendered header line per stored pair, in stored order.
pub open spec fn render_header_lines(hs: Seq<(Seq<char>, Seq<char>)>) -> Seq<char>
    decreases hs.len(),
{
    if hs.len() == 0 {
        Seq::<char>::empty()
    } else {
        render_header_lines(hs.drop_last()) + hs.last().0 + ": "@ + hs.last().1 + "\r\n"@
    }
}

/// The exact wire text of a response: the status line, every header as
/// `name: value`, a blank line, then the body; a body that is not valid
/// UTF-8 is shown as a placeholder naming its byte count.
pub open spec fn spec_render(r: RespView) -> Seq<char> {
    "HTTP/1.1 "@ + dec_str(r.status.spec_code() as nat) + " "@ + r.status.spec_reason() + "\r\n"@
        + render_header_lines(r.headers) + "\r\n"@ + (if valid_utf8(r.body) {
        decode_utf8(r.body)
    } else {
        "[Binary data: "@ + dec_str(r.body.len()) + " bytes]"@
    })
}

impl HttpResponse {
    /// Renders the response to its wire text, [`spec_render`] exactly.
    pub fn render(&self) -> (out: String)
        ensures
            out@ == spec_render(self@),
    {
        let mut out = String::from_str("HTTP/1.1 ");
        let code_text = usize_to_string(self.status.code() as usize);
        out.append(code_text.as_str());
        out.append(" ");
        out.append(self.status.reason_phrase());
        out.append("\r\n");
        let entries = self.headers.iter();
        let ghost hs = self@.headers;
        let ghost pre = out@;
        let mut i: usize = 0;
        proof {
            assert(hs.subrange(0, 0) =~= Seq::<(Seq<char>, Seq<char>)>::empty());
        }
        while i < entries.len()
            invariant
                i <= entries@.len(),
                entries@.len() == hs.len(),
                forall|j: int| 0 <= j < hs.len() ==> (#[trigger] entries@[j]).0@ == hs[j].0
                    && entries@[j].1@ == hs[j].1,
                out@ == pre + render_header_lines(hs.subrange(0, i as int)),
            decreases entries@.len() - i,
        {
            out.append(entries[i].0.as_str());
            out.append(": ");
            out.append(entries[i].1.as_str());
            out.append("\r\n");
            i = i + 1;
            proof {
                let sub = hs.subrange(0, i as int);
                assert(sub.drop_last() =~= hs.subrange(0, i - 1));
                assert(out@ =~= pre + render_header_lines(sub));
            }
        }
        proof {
            assert(hs.subrange(0, hs.len() as int) =~= hs);
        }
        out.append("\r\n");
        if utf8_is_valid(&self.body) {
            proof {
                lemma_utf8_lossy_valid(self.body@);
            }
            let chars = utf8_lossy_vec(&self.body);
            let text = chars_to_string(&chars);
            out.append(text.as_str());
        } else {
            out.append("[Binary data: ");
            let len_text = usize_to_string(self.body.len());
            out.append(len_text.as_str());
            out.append(" bytes]");
        }
        proof {
            assert(out@ =~= spec_render(self@));
        }
        out
    }
}

} // verus!
