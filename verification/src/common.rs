//! The HTTP protocol version shared by requests and responses.

use vstd::prelude::*;
use crate::text::str_eq;

verus! {

/// The protocol version named on a request line or a status line. A token
/// other than the two recognized literals parses to `Uninitialized`.
#[derive(Debug, PartialEq, Eq, Structural, Clone, Copy)]
pub enum HttpVersion {
    V1_1,
    V2_0,
    Uninitialized,
}

/// The version a token names: exactly `HTTP/1.1` and `HTTP/2.0` are
/// recognized; everything else is `Uninitialized`.
pub open spec fn version_of(s: Seq<char>) -> HttpVersion {
    if s == "HTTP/1.1"@ {
        HttpVersion::V1_1
    } else if s == "HTTP/2.0"@ {
        HttpVersion::V2_0
    } else {
        HttpVersion::Uninitialized
    }
}

/// The wire text of a version: `Uninitialized` renders exactly as `V1_1`.
pub open spec fn version_text(v: HttpVersion) -> Seq<char> {
    match v {
        HttpVersion::V2_0 => "HTTP/2.0"@,
        _ => "HTTP/1.1"@,
    }
}

impl HttpVersion {
    /// Parses a version token.
    pub fn from_token(s: &str) -> (r: HttpVersion)
        ensures
            r == version_of(s@),
    {
        if str_eq(s, "HTTP/1.1") {
            HttpVersion::V1_1
        } else if str_eq(s, "HTTP/2.0") {
            HttpVersion::V2_0
        } else {
            HttpVersion::Uninitialized
        }
    }

    /// The version's wire text.
    pub fn text(&self) -> (r: &'static str)
        ensures
            r@ == version_text(*self),
    {
        match self {
            HttpVersion::V2_0 => "HTTP/2.0",
            _ => "HTTP/1.1",
        }
    }
}

/// An uninitialized version serializes identically to version 1.1.
pub proof fn lemma_uninitialized_renders_as_v1_1()
    ensures
        version_text(HttpVersion::Uninitialized) == version_text(HttpVersion::V1_1),
{
}

/// Exactly the two version tokens parse to their variants; every other
/// token, the empty one included, parses to `Uninitialized`.
pub proof fn lemma_version_table()
    ensures
        version_of("HTTP/1.1"@) == HttpVersion::V1_1,
        version_of("HTTP/2.0"@) == HttpVersion::V2_0,
        forall|s: Seq<char>|
            s != "HTTP/1.1"@ && s != "HTTP/2.0"@ ==> version_of(s) == HttpVersion::Uninitialized,
{
    reveal_strlit("HTTP/1.1");
    reveal_strlit("HTTP/2.0");
    assert("HTTP/1.1"@[5] == '1' && "HTTP/2.0"@[5] == '2');
    assert("HTTP/2.0"@ != "HTTP/1.1"@);
}

} // verus!
