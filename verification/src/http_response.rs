//! The structured response and its exact wire-format serialization:
//! status line, header lines, a synthesized `Content-Length` header equal to
//! the byte length of the body, a blank line, and the body.

use vstd::prelude::*;
use vstd::string::*;
use vstd::utf8::encode_utf8;
use crate::common::{version_text, HttpVersion};
use crate::strmap::StrMap;
use crate::text::{dec_rep, dec_str, str_eq};

verus! {

/// The abstract value of a response.
pub struct RespModel {
    pub version: HttpVersion,
    pub status_code: Seq<char>,
    pub status_text: Seq<char>,
    pub headers: Option<Seq<(Seq<char>, Seq<char>)>>,
    pub body: Option<Seq<char>>,
}

/// The view of an optional header mapping.
pub open spec fn opt_map_view(h: Option<StrMap>) -> Option<Seq<(Seq<char>, Seq<char>)>> {
    match h {
        Some(m) => Some(m@),
        None => None,
    }
}

/// The view of an optional string.
pub open spec fn opt_str_view(b: Option<String>) -> Option<Seq<char>> {
    match b {
        Some(s) => Some(s@),
        None => None,
    }
}

/// The status text the fixed table derives from a status code.
pub open spec fn status_text_of(code: Seq<char>) -> Seq<char> {
    if code == "200"@ {
        "OK"@
    } else if code == "400"@ {
        "Bad Request"@
    } else if code == "404"@ {
        "Not Found"@
    } else if code == "500"@ {
        "Internal Server Error"@
    } else {
        "Unknown Error"@
    }
}

/// The model `new` builds: the given status code, its status text from the
/// fixed table, the given headers or the single default
/// `Content-Type: text/html`, and the given body.
pub open spec fn new_spec(
    code: Seq<char>,
    headers: Option<Seq<(Seq<char>, Seq<char>)>>,
    body: Option<Seq<char>>,
) -> RespModel {
    RespModel {
        version: HttpVersion::V1_1,
        status_code: code,
        status_text: status_text_of(code),
        headers: Some(
            match headers {
                Some(h) => h,
                None => seq![("Content-Type"@, "text/html"@)],
            },
        ),
        body: body,
    }
}

/// The body rendered on the wire: the empty string when there is none.
pub open spec fn body_text(b: Option<Seq<char>>) -> Seq<char> {
    match b {
        Some(s) => s,
        None => Seq::empty(),
    }
}

/// The header pairs rendered on the wire: none when the mapping is absent.
pub open spec fn opt_pairs(h: Option<Seq<(Seq<char>, Seq<char>)>>) -> Seq<(Seq<char>, Seq<char>)> {
    match h {
        Some(ps) => ps,
        None => Seq::empty(),
    }
}

/// One rendered line per header pair, in order: `key:value` then CRLF.
pub open spec fn render_headers(ps: Seq<(Seq<char>, Seq<char>)>) -> Seq<char>
    decreases ps.len(),
{
    if ps.len() == 0 {
        Seq::empty()
    } else {
        render_headers(ps.drop_last()) + ps.last().0 + ":"@ + ps.last().1 + "\r\n"@
    }
}

/// The exact wire text of a response. The `Content-Length` value is the byte
/// length of the UTF-8 encoding of the body.
pub open spec fn render(r: RespModel) -> Seq<char> {
    version_text(r.version) + " "@ + r.status_code + " "@ + r.status_text + "\r\n"@
        + render_headers(opt_pairs(r.headers)) + "Content-Length: "@ + dec_rep(
        encode_utf8(body_text(r.body)).len(),
    ) + "\r\n\r\n"@ + body_text(r.body)
}

/// The wire text always carries a `Content-Length` exactly equal to the byte
/// length of the rendered body: it decomposes around that header, whatever
/// the response holds.
pub proof fn lemma_content_length(r: RespModel)
    ensures
        render(r) == (version_text(r.version) + " "@ + r.status_code + " "@ + r.status_text
            + "\r\n"@ + render_headers(opt_pairs(r.headers))) + "Content-Length: "@ + dec_rep(
            encode_utf8(body_text(r.body)).len(),
        ) + "\r\n\r\n"@ + body_text(r.body),
{
}

/// A built response's status text always agrees with its status code per the
/// fixed table: no construction sets one without the other.
pub proof fn lemma_status_text_consistent(
    code: Seq<char>,
    headers: Option<Seq<(Seq<char>, Seq<char>)>>,
    body: Option<Seq<char>>,
)
    ensures
        new_spec(code, headers, body).status_text == status_text_of(
            new_spec(code, headers, body).status_code,
        ),
{
}

/// A structured response, built once by `new` and serialized by `to_wire`.
#[derive(Debug, PartialEq, Clone)]
pub struct HttpResponse {
    pub version: HttpVersion,
    pub status_code: String,
    pub status_text: String,
    pub headers: Option<StrMap>,
    pub body: Option<String>,
}

impl View for HttpResponse {
    type V = RespModel;

    open spec fn view(&self) -> RespModel {
        RespModel {
            version: self.version,
            status_code: self.status_code@,
            status_text: self.status_text@,
            headers: opt_map_view(self.headers),
            body: opt_str_view(self.body),
        }
    }
}

impl Default for HttpResponse {
    /// The default response: `200 OK`, no headers, no body.
    fn default() -> (r: HttpResponse)
        ensures
            r@ == (RespModel {
                version: HttpVersion::V1_1,
                status_code: "200"@,
                status_text: "OK"@,
                headers: None,
                body: None,
            }),
    {
        HttpResponse {
            version: HttpVersion::V1_1,
            status_code: String::from_str("200"),
            status_text: String::from_str("OK"),
            headers: None,
            body: None,
        }
    }
}

impl HttpResponse {
    /// The status text for a code, from the fixed table.
    fn status_text_for(code: &str) -> (r: String)
        ensures
            r@ == status_text_of(code@),
    {
        if str_eq(code, "200") {
            String::from_str("OK")
        } else if str_eq(code, "400") {
            String::from_str("Bad Request")
        } else if str_eq(code, "404") {
            String::from_str("Not Found")
        } else if str_eq(code, "500") {
            String::from_str("Internal Server Error")
        } else {
            String::from_str("Unknown Error")
        }
    }

    /// Builds a response from a status code, optional headers and an optional
    /// body. Absent headers default to `Content-Type: text/html`; the status
    /// text comes from the fixed table.
    pub fn new(status_code: &str, headers: Option<StrMap>, body: Option<String>) -> (r:
        HttpResponse)
        ensures
            r@ == new_spec(status_code@, opt_map_view(headers), opt_str_view(body)),
    {
        let status_text = Self::status_text_for(status_code);
        let headers_filled = match headers {
            Some(h) => Some(h),
            None => {
                let mut m = StrMap::new();
                m.insert(String::from_str("Content-Type"), String::from_str("text/html"));
                proof {
                    assert(m@ =~= seq![("Content-Type"@, "text/html"@)]);
                }
                Some(m)
            },
        };
        HttpResponse {
            version: HttpVersion::V1_1,
            status_code: status_code.to_owned(),
            status_text,
            headers: headers_filled,
            body,
        }
    }

    /// The response's version.
    pub fn version(&self) -> (r: &HttpVersion)
        ensures
            *r == self@.version,
    {
        &self.version
    }

    /// The response's status code.
    pub fn status_code(&self) -> (r: &str)
        ensures
            r@ == self@.status_code,
    {
        self.status_code.as_str()
    }

    /// The response's status text.
    pub fn status_text(&self) -> (r: &str)
        ensures
            r@ == self@.status_text,
    {
        self.status_text.as_str()
    }

    /// The response's body as rendered on the wire: empty when absent.
    pub fn body(&self) -> (r: &str)
        ensures
            r@ == body_text(self@.body),
    {
        match &self.body {
            None => {
                let r = "";
                proof {
                    reveal_strlit("");
                    assert(r@ =~= Seq::<char>::empty());
                }
                r
            },
            Some(b) => b.as_str(),
        }
    }

    /// The rendered header block: one `key:value` line per header, in the
    /// mapping's order.
    pub fn headers(&self) -> (r: String)
        ensures
            r@ == render_headers(opt_pairs(self@.headers)),
    {
        let mut out = String::new();
        match &self.headers {
            None => out,
            Some(m) => {
                let n = m.len();
                let mut i: usize = 0;
                proof {
                    assert(m@.take(0) =~= Seq::<(Seq<char>, Seq<char>)>::empty());
                }
                while i < n
                    invariant
                        n == m@.len(),
                        i <= n,
                        out@ == render_headers(m@.take(i as int)),
                    decreases n - i,
                {
                    let k = m.key_at(i);
                    out.append(k.as_str());
                    out.append(":");
                    let v = m.value_at(i);
                    out.append(v.as_str());
                    out.append("\r\n");
                    proof {
                        assert(m@.take(i + 1).drop_last() =~= m@.take(i as int));
                        assert(m@.take(i + 1).last() == m@[i as int]);
                    }
                    i += 1;
                }
                proof {
                    assert(m@.take(n as int) =~= m@);
                }
                out
            },
        }
    }

    /// The exact wire text of the response.
    pub fn to_wire(&self) -> (r: String)
        ensures
            r@ == render(self@),
    {
        let mut out = self.version.text().to_owned();
        out.append(" ");
        out.append(self.status_code.as_str());
        out.append(" ");
        out.append(self.status_text.as_str());
        out.append("\r\n");
        let hdrs = self.headers();
        out.append(hdrs.as_str());
        out.append("Content-Length: ");
        let b = self.body();
        let body_bytes = b.as_bytes();
        proof {
            broadcast use vstd::slice::axiom_spec_len;

            assert(body_bytes@ == encode_utf8(body_text(self@.body)));
        }
        let content_length = dec_str(body_bytes.len());
        out.append(content_length.as_str());
        out.append("\r\n\r\n");
        out.append(b);
        out
    }
}

} // verus!
