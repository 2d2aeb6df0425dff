use httpserver::common::HttpVersion;
use httpserver::http_response::HttpResponse;
use httpserver::strmap::StrMap;

#[test]
fn test_response_struct_creation_200() {
    let response_actual = HttpResponse::new("200", None, Some("xxxx".into()));
    let response_expected = HttpResponse {
        version: HttpVersion::V1_1,
        status_code: "200".into(),
        status_text: "OK".into(),
        headers: {
            let mut h = StrMap::new();
            h.insert("Content-Type".into(), "text/html".into());
            Some(h)
        },
        body: Some("xxxx".into()),
    };

    assert_eq!(response_actual, response_expected);
}

#[test]
fn content_length_equals_body_byte_length() {
    let response = HttpResponse::new("200", None, Some("xxxx".into()));
    assert_eq!(
        response.to_wire(),
        "HTTP/1.1 200 OK\r\nContent-Type:text/html\r\nContent-Length: 4\r\n\r\nxxxx".to_string()
    );
}

#[test]
fn absent_body_serializes_with_content_length_zero() {
    let response = HttpResponse::new("404", None, None);
    assert_eq!(
        response.to_wire(),
        "HTTP/1.1 404 Not Found\r\nContent-Type:text/html\r\nContent-Length: 0\r\n\r\n"
            .to_string()
    );
}

#[test]
fn content_length_with_two_digits() {
    let response = HttpResponse::new("200", None, Some("0123456789".into()));
    assert_eq!(
        response.to_wire(),
        "HTTP/1.1 200 OK\r\nContent-Type:text/html\r\nContent-Length: 10\r\n\r\n0123456789"
            .to_string()
    );
}

#[test]
fn content_length_counts_bytes_not_characters() {
    // Two characters, three bytes in UTF-8.
    let response = HttpResponse::new("200", None, Some("aé".into()));
    let wire = response.to_wire();
    assert!(wire.contains("Content-Length: 3\r\n\r\naé"));
}

#[test]
fn status_text_follows_the_fixed_table() {
    assert_eq!(HttpResponse::new("200", None, None).status_text(), "OK");
    assert_eq!(HttpResponse::new("400", None, None).status_text(), "Bad Request");
    assert_eq!(HttpResponse::new("404", None, None).status_text(), "Not Found");
    assert_eq!(
        HttpResponse::new("500", None, None).status_text(),
        "Internal Server Error"
    );
    assert_eq!(HttpResponse::new("999", None, None).status_text(), "Unknown Error");
}

#[test]
fn default_response_is_200_ok() {
    let r = HttpResponse::default();
    assert_eq!(*r.version(), HttpVersion::V1_1);
    assert_eq!(r.status_code(), "200");
    assert_eq!(r.status_text(), "OK");
    assert_eq!(r.headers, None);
    assert_eq!(r.body, None);
    assert_eq!(r.body(), "");
}

#[test]
fn given_headers_are_kept_as_given() {
    let mut h = StrMap::new();
    h.insert("X-A".into(), "1".into());
    let r = HttpResponse::new("200", Some(h), None);
    assert_eq!(r.headers.as_ref().unwrap().get("X-A"), Some(&"1".to_string()));
    assert_eq!(r.headers.as_ref().unwrap().len(), 1);
}
