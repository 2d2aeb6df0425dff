//! The structured request and its parser. The raw text of one request is
//! split into lines at CRLF; each line is classified independently and in
//! order: a line containing `HTTP` is the request line (three
//! whitespace-separated tokens: method, resource, version), a line containing
//! `:` is a header line (key before the first colon, value the rest of the
//! line, untrimmed), an empty line is the header/body separator, and any
//! other line becomes the message body (the last such line wins).

use vstd::prelude::*;
use vstd::string::*;
use crate::common::{version_of, HttpVersion};
use crate::strmap::{insert_pair, StrMap};
use crate::text::{
    after_token, char_from, contains_char, contains_sub, contains_sub_exec, find_char_from,
    first_token, has_token, next_token, split_crlf, split_crlf_exec, str_eq, views,
};

verus! {

/// The request method. Only the literal tokens `GET` and `POST` are
/// recognized; every other token parses to `Uninitialized`.
#[derive(Debug, PartialEq, Eq, Structural, Clone, Copy)]
pub enum Method {
    Get,
    Post,
    Uninitialized,
}

/// The method a token names.
pub open spec fn method_of(s: Seq<char>) -> Method {
    if s == "GET"@ {
        Method::Get
    } else if s == "POST"@ {
        Method::Post
    } else {
        Method::Uninitialized
    }
}

impl Method {
    /// Parses a method token.
    pub fn from_token(s: &str) -> (r: Method)
        ensures
            r == method_of(s@),
    {
        if str_eq(s, "GET") {
            Method::Get
        } else if str_eq(s, "POST") {
            Method::Post
        } else {
            Method::Uninitialized
        }
    }
}

/// Exactly the two method tokens parse to their variants; every other token,
/// the empty one included, parses to `Uninitialized`.
pub proof fn lemma_method_table()
    ensures
        method_of("GET"@) == Method::Get,
        method_of("POST"@) == Method::Post,
        forall|s: Seq<char>|
            s != "GET"@ && s != "POST"@ ==> method_of(s) == Method::Uninitialized,
{
    reveal_strlit("GET");
    reveal_strlit("POST");
    assert("GET"@.len() == 3 && "POST"@.len() == 4);
    assert("POST"@ != "GET"@);
}

/// The request path, stored verbatim from the request line's second token.
#[derive(Debug, PartialEq, Clone)]
pub struct Resource(pub String);

/// The abstract value of a parsed request.
pub struct ReqModel {
    pub method: Method,
    pub version: HttpVersion,
    pub resource: Seq<char>,
    pub headers: Seq<(Seq<char>, Seq<char>)>,
    pub msg_body: Seq<char>,
}

/// The parser's state: the request gathered so far, and whether a malformed
/// request line (fewer than three tokens) has been seen.
pub struct ParseAcc {
    pub req: ReqModel,
    pub malformed: bool,
}

/// The state before any line is processed.
pub open spec fn init_acc() -> ParseAcc {
    ParseAcc {
        req: ReqModel {
            method: Method::Uninitialized,
            version: HttpVersion::Uninitialized,
            resource: Seq::empty(),
            headers: Seq::empty(),
            msg_body: Seq::empty(),
        },
        malformed: false,
    }
}

/// Whether a request line holds its three tokens: method, resource, version.
pub open spec fn req_line_ok(line: Seq<char>) -> bool {
    has_token(line) && has_token(after_token(line)) && has_token(after_token(after_token(line)))
}

/// The method the first token of a request line names.
pub open spec fn req_line_method(line: Seq<char>) -> Method {
    method_of(first_token(line))
}

/// The resource path a request line's second token carries, verbatim.
pub open spec fn req_line_resource(line: Seq<char>) -> Seq<char> {
    first_token(after_token(line))
}

/// The version the third token of a request line names.
pub open spec fn req_line_version(line: Seq<char>) -> HttpVersion {
    version_of(first_token(after_token(after_token(line))))
}

/// Whether a line is classified as a header line: it has a colon and is not
/// the request line.
pub open spec fn is_header_line(line: Seq<char>) -> bool {
    !contains_sub(line, "HTTP"@) && contains_char(line, ':')
}

/// A header line's key: everything before its first colon, untrimmed.
pub open spec fn header_key(line: Seq<char>) -> Seq<char> {
    line.subrange(0, char_from(line, ':', 0))
}

/// A header line's value: everything after its first colon, untrimmed.
pub open spec fn header_value(line: Seq<char>) -> Seq<char> {
    line.subrange(char_from(line, ':', 0) + 1, line.len() as int)
}

/// How one line changes the parse state.
pub open spec fn parse_step(a: ParseAcc, line: Seq<char>) -> ParseAcc {
    if contains_sub(line, "HTTP"@) {
        if req_line_ok(line) {
            ParseAcc {
                req: ReqModel {
                    method: req_line_method(line),
                    resource: req_line_resource(line),
                    version: req_line_version(line),
                    ..a.req
                },
                ..a
            }
        } else {
            ParseAcc { malformed: true, ..a }
        }
    } else if contains_char(line, ':') {
        ParseAcc {
            req: ReqModel {
                headers: insert_pair(a.req.headers, header_key(line), header_value(line)),
                ..a.req
            },
            ..a
        }
    } else if line.len() == 0 {
        a
    } else {
        ParseAcc { req: ReqModel { msg_body: line, ..a.req }, ..a }
    }
}

/// The parse state after a sequence of lines, processed in order.
pub open spec fn parse_lines(lines: Seq<Seq<char>>) -> ParseAcc
    decreases lines.len(),
{
    if lines.len() == 0 {
        init_acc()
    } else {
        parse_step(parse_lines(lines.drop_last()), lines.last())
    }
}

/// The parse of the whole raw text of one request.
pub open spec fn parse_text(s: Seq<char>) -> ParseAcc {
    parse_lines(split_crlf(s))
}

/// Every pair of the parsed headers mapping comes from a header line: its
/// key and value are that line's key and value. No binding ever comes from
/// the request line, a body line or the separator.
pub proof fn lemma_headers_provenance(lines: Seq<Seq<char>>)
    ensures
        forall|x: int|
            0 <= x < parse_lines(lines).req.headers.len() ==> exists|i: int|
                0 <= i < lines.len() && is_header_line(lines[i])
                    && #[trigger] parse_lines(lines).req.headers[x] == (
                header_key(lines[i]),
                header_value(lines[i]),
                ),
    decreases lines.len(),
{
    if lines.len() > 0 {
        let rest = lines.drop_last();
        let last = lines.last();
        let prev = parse_lines(rest);
        let cur = parse_lines(lines);
        lemma_headers_provenance(rest);
        assert(forall|i: int| 0 <= i < rest.len() ==> rest[i] == lines[i]);
        assert forall|x: int| 0 <= x < cur.req.headers.len() implies exists|i: int|
            0 <= i < lines.len() && is_header_line(lines[i])
                && #[trigger] cur.req.headers[x] == (
            header_key(lines[i]),
            header_value(lines[i]),
        ) by {
            if is_header_line(last) {
                let k = header_key(last);
                crate::strmap::lemma_key_from_props(prev.req.headers, k, 0);
                let j = crate::strmap::key_idx(prev.req.headers, k);
                let w = lines.len() - 1;
                if j < prev.req.headers.len() && x == j {
                    assert(0 <= w < lines.len() && is_header_line(lines[w])
                        && cur.req.headers[x] == (header_key(lines[w]), header_value(lines[w])));
                } else if j >= prev.req.headers.len() && x == prev.req.headers.len() {
                    assert(0 <= w < lines.len() && is_header_line(lines[w])
                        && cur.req.headers[x] == (header_key(lines[w]), header_value(lines[w])));
                } else {
                    assert(cur.req.headers[x] == prev.req.headers[x]);
                    let i = choose|i: int|
                        0 <= i < rest.len() && is_header_line(rest[i])
                            && #[trigger] prev.req.headers[x] == (
                        header_key(rest[i]),
                        header_value(rest[i]),
                        );
                    assert(0 <= i < lines.len() && is_header_line(lines[i])
                        && cur.req.headers[x] == (header_key(lines[i]), header_value(lines[i])));
                }
            } else {
                assert(cur.req.headers == prev.req.headers);
                let i = choose|i: int|
                    0 <= i < rest.len() && is_header_line(rest[i])
                        && #[trigger] prev.req.headers[x] == (
                    header_key(rest[i]),
                    header_value(rest[i]),
                    );
                assert(0 <= i < lines.len() && is_header_line(lines[i])
                    && cur.req.headers[x] == (header_key(lines[i]), header_value(lines[i])));
            }
        }
    }
}

/// The failure a parse can report: a request line with fewer than three
/// whitespace-separated tokens.
#[derive(Debug, PartialEq, Eq, Structural, Clone, Copy)]
pub enum ParseError {
    MalformedRequestLine,
}

/// Splits a request line into its three tokens, when it holds all three.
fn try_req_line(s: &str) -> (r: Option<(Method, Resource, HttpVersion)>)
    ensures
        match r {
            Some(p) => req_line_ok(s@) && p.0 == req_line_method(s@) && p.1.0@
                == req_line_resource(s@) && p.2 == req_line_version(s@),
            None => !req_line_ok(s@),
        },
{
    let (t0, rest0, h0) = next_token(s);
    if !h0 {
        return None;
    }
    let (t1, rest1, h1) = next_token(rest0.as_str());
    if !h1 {
        return None;
    }
    let (t2, _rest2, h2) = next_token(rest1.as_str());
    if !h2 {
        return None;
    }
    Some((Method::from_token(t0.as_str()), Resource(t1), HttpVersion::from_token(t2.as_str())))
}

/// Splits a request line into method, resource and version. The line must
/// hold all three tokens.
pub fn process_req_line(s: &str) -> (r: (Method, Resource, HttpVersion))
    requires
        req_line_ok(s@),
    ensures
        r.0 == req_line_method(s@),
        r.1.0@ == req_line_resource(s@),
        r.2 == req_line_version(s@),
{
    match try_req_line(s) {
        Some(p) => p,
        None => vstd::pervasive::unreached(),
    }
}

/// Splits a header line at its first colon: the key is everything before the
/// colon, the value everything after it, neither of them trimmed.
pub fn process_header_line(s: &str) -> (r: (String, String))
    requires
        contains_char(s@, ':'),
    ensures
        r.0@ == s@.subrange(0, char_from(s@, ':', 0)),
        r.1@ == s@.subrange(char_from(s@, ':', 0) + 1, s@.len() as int),
{
    let m = s.unicode_len();
    let j = find_char_from(s, ':', 0);
    let key = s.substring_char(0, j).to_owned();
    let value = s.substring_char(j + 1, m).to_owned();
    (key, value)
}

/// A structured request: method, version, resource path, header mapping and
/// message body.
#[derive(Debug)]
pub struct HttpRequest {
    pub method: Method,
    pub version: HttpVersion,
    pub resource: Resource,
    pub headers: StrMap,
    pub msg_body: String,
}

impl View for HttpRequest {
    type V = ReqModel;

    open spec fn view(&self) -> ReqModel {
        ReqModel {
            method: self.method,
            version: self.version,
            resource: self.resource.0@,
            headers: self.headers@,
            msg_body: self.msg_body@,
        }
    }
}

impl HttpRequest {
    /// Parses the raw text of one request; a request line with fewer than
    /// three tokens is reported as an error instead of a request.
    pub fn try_from(req: &str) -> (r: Result<HttpRequest, ParseError>)
        ensures
            match r {
                Ok(q) => !parse_text(req@).malformed && q@ == parse_text(req@).req
                    && q.headers.wf(),
                Err(e) => parse_text(req@).malformed && e == ParseError::MalformedRequestLine,
            },
    {
        let lines = split_crlf_exec(req);
        let n = lines.len();
        let mut method = Method::Uninitialized;
        let mut version = HttpVersion::Uninitialized;
        let mut resource = String::new();
        let mut headers = StrMap::new();
        let mut msg_body = String::new();
        let mut malformed = false;
        let ghost lv = views(lines@);
        proof {
            assert(lv.take(0) =~= Seq::<Seq<char>>::empty());
        }
        let mut i: usize = 0;
        while i < n
            invariant
                n == lines@.len(),
                i <= n,
                lv == views(lines@),
                lv == split_crlf(req@),
                parse_lines(lv.take(i as int)) == (ParseAcc {
                    req: ReqModel {
                        method: method,
                        version: version,
                        resource: resource@,
                        headers: headers@,
                        msg_body: msg_body@,
                    },
                    malformed: malformed,
                }),
                headers.wf(),
            decreases n - i,
        {
            let ghost prev = parse_lines(lv.take(i as int));
            let line = lines[i].as_str();
            proof {
                assert(lv[i as int] == line@);
                reveal_strlit("HTTP");
            }
            if contains_sub_exec(line, "HTTP") {
                match try_req_line(line) {
                    Some((m, r, v)) => {
                        method = m;
                        resource = r.0;
                        version = v;
                    },
                    None => {
                        malformed = true;
                    },
                }
            } else {
                let m = line.unicode_len();
                let j = find_char_from(line, ':', 0);
                if j < m {
                    let (key, value) = process_header_line(line);
                    headers.insert(key, value);
                } else if m == 0 {
                    // header/body separator: skipped
                } else {
                    msg_body = line.to_owned();
                }
            }
            proof {
                assert(lv.take(i + 1).drop_last() =~= lv.take(i as int));
                assert(lv.take(i + 1).last() == line@);
                assert(parse_lines(lv.take(i + 1)) == parse_step(prev, line@));
                assert(parse_step(prev, line@) == (ParseAcc {
                    req: ReqModel {
                        method: method,
                        version: version,
                        resource: resource@,
                        headers: headers@,
                        msg_body: msg_body@,
                    },
                    malformed: malformed,
                }));
            }
            i += 1;
        }
        proof {
            assert(lv.take(n as int) =~= lv);
        }
        if malformed {
            Err(ParseError::MalformedRequestLine)
        } else {
            Ok(
                HttpRequest {
                    method,
                    version,
                    resource: Resource(resource),
                    headers,
                    msg_body,
                },
            )
        }
    }

    /// Parses the raw text of one request whose request line, if any, is
    /// well-formed.
    pub fn from(req: &str) -> (r: HttpRequest)
        requires
            !parse_text(req@).malformed,
        ensures
            r@ == parse_text(req@).req,
            r.headers.wf(),
    {
        match Self::try_from(req) {
            Ok(r) => r,
            Err(_) => vstd::pervasive::unreached(),
        }
    }
}

} // verus!
