use httpserver::common::HttpVersion;
use httpserver::http_request::{HttpRequest, Method, ParseError, Resource};
use httpserver::strmap::StrMap;

#[test]
fn test_method_into_get() {
    let get_: Method = Method::from_token("GET");
    assert_eq!(get_, Method::Get);
}

#[test]
fn test_method_into_other() {
    let other_: Method = Method::from_token("other");
    assert_eq!(other_, Method::Uninitialized);
}

#[test]
fn test_version_into() {
    let v1: HttpVersion = HttpVersion::from_token("HTTP/1.1");
    assert_eq!(v1, HttpVersion::V1_1)
}

#[test]
fn test_read_http() {
    let raw_http_string: String = String::from(
        "GET / HTTP/1.1\r\nHost: developer.mozilla.org\r\nAccept-Language: fr\r\n\r\n",
    );
    let mut headers_expected = StrMap::new();
    headers_expected.insert("Host".into(), " developer.mozilla.org".into());
    headers_expected.insert("Accept-Language".into(), " fr".into());

    let req: HttpRequest = HttpRequest::from(raw_http_string.as_str());

    assert_eq!(Method::Get, req.method);
    assert_eq!(HttpVersion::V1_1, req.version);
    assert_eq!(Resource("/".to_string()), req.resource);
    assert_eq!(headers_expected, req.headers);
}

#[test]
fn parse_post_method_token() {
    assert_eq!(Method::from_token("POST"), Method::Post);
}

#[test]
fn parse_empty_method_token() {
    assert_eq!(Method::from_token(""), Method::Uninitialized);
}

#[test]
fn parse_version_tokens() {
    assert_eq!(HttpVersion::from_token("HTTP/2.0"), HttpVersion::V2_0);
    assert_eq!(HttpVersion::from_token("HTTP/1.0"), HttpVersion::Uninitialized);
    assert_eq!(HttpVersion::from_token(""), HttpVersion::Uninitialized);
}

#[test]
fn uninitialized_version_renders_as_v1_1() {
    assert_eq!(HttpVersion::Uninitialized.text(), "HTTP/1.1");
    assert_eq!(HttpVersion::V1_1.text(), "HTTP/1.1");
    assert_eq!(HttpVersion::V2_0.text(), "HTTP/2.0");
}

#[test]
fn malformed_request_line_is_an_error() {
    let r = HttpRequest::try_from("HTTP\r\n\r\n");
    assert_eq!(r.unwrap_err(), ParseError::MalformedRequestLine);
}

#[test]
fn two_token_request_line_is_an_error() {
    let r = HttpRequest::try_from("GET HTTP/1.1\r\n\r\n");
    assert_eq!(r.unwrap_err(), ParseError::MalformedRequestLine);
}

#[test]
fn duplicate_header_key_last_wins() {
    let req = HttpRequest::from("GET / HTTP/1.1\r\nA: 1\r\nA: 2\r\n\r\n");
    assert_eq!(req.headers.len(), 1);
    assert_eq!(req.headers.get("A"), Some(&" 2".to_string()));
}

#[test]
fn header_value_keeps_leading_space_and_later_colons() {
    let req = HttpRequest::from("GET / HTTP/1.1\r\nHost: a:b\r\n\r\n");
    assert_eq!(req.headers.get("Host"), Some(&" a:b".to_string()));
}

#[test]
fn last_body_line_wins_and_separator_is_skipped() {
    let req = HttpRequest::from("GET / HTTP/1.1\r\n\r\nfirst\r\nsecond");
    assert_eq!(req.msg_body, "second".to_string());
}

#[test]
fn empty_input_parses_to_uninitialized_request() {
    let req = HttpRequest::from("");
    assert_eq!(req.method, Method::Uninitialized);
    assert_eq!(req.version, HttpVersion::Uninitialized);
    assert_eq!(req.resource, Resource("".to_string()));
    assert_eq!(req.headers.len(), 0);
    assert_eq!(req.msg_body, "".to_string());
}
