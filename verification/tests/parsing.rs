use tinyhttp::error::Error;
use tinyhttp::header_map::HeaderMap;
use tinyhttp::header_map::InsertError;
use tinyhttp::headers::RequestHeader;
use tinyhttp::parser::parse_request;
use tinyhttp::parser::request;
use tinyhttp::request::HttpMethod;
use tinyhttp::request::HttpVersion;

fn failure(buf: &[u8]) -> Error {
    match parse_request(buf) {
        Ok(_) => panic!("the request was accepted"),
        Err(e) => e,
    }
}

#[test]
fn parses_a_simple_get() {
    let req = parse_request(b"GET / HTTP/1.1\r\nHost: x\r\n\r\n").unwrap();
    assert_eq!(req.method(), HttpMethod::Get);
    assert_eq!(req.path(), "/");
    assert_eq!(req.version(), HttpVersion::Http11);
    assert_eq!(req.try_find_header(&RequestHeader::Host), Some("x"));
    assert_eq!(req.try_find_header(&RequestHeader::Accept), None);
    assert_eq!(req.body_length(), None);
    assert_eq!(req.body_inline(), None);
}

#[test]
fn parses_every_method() {
    let methods = [
        ("GET", HttpMethod::Get),
        ("HEAD", HttpMethod::Head),
        ("POST", HttpMethod::Post),
        ("OPTIONS", HttpMethod::Options),
        ("TRACE", HttpMethod::Trace),
        ("DELETE", HttpMethod::Delete),
        ("PUT", HttpMethod::Put),
        ("PATCH", HttpMethod::Patch),
        ("CONNECT", HttpMethod::Connect),
    ];
    for (token, method) in methods {
        let text = format!("{} /index.html HTTP/1.0\r\n\r\n", token);
        let req = parse_request(text.as_bytes()).unwrap();
        assert_eq!(req.method(), method);
        assert_eq!(req.path(), "/index.html");
        assert_eq!(req.version(), HttpVersion::Http10);
    }
}

#[test]
fn unknown_method_is_malformed() {
    assert_eq!(failure(b"FETCH / HTTP/1.1\r\n\r\n"), Error::BadRequest);
    assert_eq!(failure(b"get /abc HTTP/1.1\r\n\r\n"), Error::BadRequest);
}

#[test]
fn unknown_version_is_malformed() {
    assert_eq!(failure(b"GET / HTTP/2.0\r\n\r\n"), Error::BadRequest);
    assert_eq!(failure(b"GET / HTTP/1.1 \r\n\r\n"), Error::BadRequest);
    assert_eq!(failure(b"GET /abc HTTP/1\r\n\r\n"), Error::BadRequest);
}

#[test]
fn missing_request_line_terminator_is_malformed() {
    assert_eq!(failure(b"GET / HTTP/1.1 and then nothing"), Error::BadRequest);
    assert_eq!(failure(b"GET / HTTP/1.1\nHost: x\n\n"), Error::BadRequest);
    assert_eq!(failure(b"GARBAGE\r\n\r\n"), Error::BadRequest);
}

#[test]
fn short_input_is_malformed() {
    assert_eq!(failure(b""), Error::BadRequest);
    assert_eq!(failure(b"GET / HTTP/1.1"), Error::BadRequest);
    assert_eq!(failure(b"GET / HTTP/1.\r\n"), Error::BadRequest);
}

#[test]
fn the_full_grammar_refuses_short_input_too() {
    assert!(matches!(request(b"GET / HTTP/1.\r\n"), Err(Error::BadRequest)));
    assert!(matches!(request(b""), Err(Error::BadRequest)));
    assert!(request(b"GET / HTTP/1.1\r\n\r\n").is_ok());
}

#[test]
fn missing_blank_line_is_malformed() {
    assert_eq!(failure(b"GET / HTTP/1.1\r\nHost: x\r\n"), Error::BadRequest);
    assert_eq!(failure(b"GET / HTTP/1.1\r\nHost: x"), Error::BadRequest);
}

#[test]
fn path_must_be_text_without_spaces() {
    assert_eq!(failure(b"GET /\xff\xfe HTTP/1.1\r\n\r\n"), Error::BadRequest);
    assert_eq!(failure(b"GET  HTTP/1.1\r\n\r\n\r\n"), Error::BadRequest);
    let req = parse_request("GET /caf\u{e9} HTTP/1.1\r\n\r\n".as_bytes()).unwrap();
    assert_eq!(req.path(), "/caf\u{e9}");
}

#[test]
fn several_spaces_may_part_the_request_line() {
    let req = parse_request(b"GET   /a/b    HTTP/1.1\r\n\r\n").unwrap();
    assert_eq!(req.path(), "/a/b");
    assert_eq!(req.version(), HttpVersion::Http11);
}

#[test]
fn header_values_are_trimmed() {
    let req = parse_request(b"GET / HTTP/1.1\r\nAccept: \t text/html \t\r\nCookie:a=b\r\nX-Empty:\r\n\r\n")
        .unwrap();
    assert_eq!(req.try_find_header(&RequestHeader::Accept), Some("text/html"));
    assert_eq!(req.try_find_header(&RequestHeader::Cookie), Some("a=b"));
    assert_eq!(req.try_find_header(&RequestHeader::Other("x-empty")), Some(""));
}

#[test]
fn header_value_splits_on_the_first_colon() {
    let req = parse_request(b"GET / HTTP/1.1\r\nHost: example.org:8080\r\n\r\n").unwrap();
    assert_eq!(req.try_find_header(&RequestHeader::Host), Some("example.org:8080"));
}

#[test]
fn header_names_match_without_regard_to_case() {
    let req = parse_request(b"GET / HTTP/1.1\r\ncOnTeNt-TyPe: a\r\nX-Custom: b\r\n\r\n").unwrap();
    assert_eq!(req.try_find_header(&RequestHeader::ContentType), Some("a"));
    assert_eq!(req.try_find_header(&RequestHeader::Other("x-custom")), Some("b"));
    assert_eq!(req.try_find_header(&RequestHeader::Other("X-CUSTOM")), Some("b"));
    assert_eq!(req.try_find_header(&RequestHeader::Other("X-Custom2")), None);
}

#[test]
fn malformed_header_lines_are_refused() {
    assert_eq!(failure(b"GET / HTTP/1.1\r\nno colon here\r\n\r\n"), Error::BadRequest);
    assert_eq!(failure(b"GET / HTTP/1.1\r\n: value\r\n\r\n"), Error::BadRequest);
    assert_eq!(failure(b"GET / HTTP/1.1\r\nBad Name: value\r\n\r\n"), Error::BadRequest);
    assert_eq!(failure(b"GET / HTTP/1.1\r\nHost: a\rb\r\n\r\n"), Error::BadRequest);
    assert_eq!(failure(b"GET / HTTP/1.1\r\nHost: a\nb\r\n\r\n"), Error::BadRequest);
    assert_eq!(failure(b"GET / HTTP/1.1\r\nHost: \xff\r\n\r\n"), Error::BadRequest);
}

#[test]
fn a_repeated_header_keeps_its_first_value() {
    let req = parse_request(b"GET / HTTP/1.1\r\nHost: first\r\nhost: second\r\n\r\n").unwrap();
    assert_eq!(req.try_find_header(&RequestHeader::Host), Some("first"));
}

fn request_with_headers(count: usize) -> String {
    let mut text = String::from("GET / HTTP/1.1\r\n");
    for i in 0..count {
        text.push_str(&format!("X-Header-{}: {}\r\n", i, i));
    }
    text.push_str("\r\n");
    text
}

#[test]
fn sixteen_headers_fit() {
    let text = request_with_headers(16);
    let req = parse_request(text.as_bytes()).unwrap();
    assert_eq!(req.try_find_header(&RequestHeader::Other("x-header-0")), Some("0"));
    assert_eq!(req.try_find_header(&RequestHeader::Other("x-header-15")), Some("15"));
}

#[test]
fn a_seventeenth_header_is_too_much() {
    let text = request_with_headers(17);
    assert_eq!(failure(text.as_bytes()), Error::EntityTooLarge);
}

#[test]
fn too_many_headers_are_reported_before_a_later_malformed_line() {
    let mut text = request_with_headers(17);
    text.truncate(text.len() - 2);
    text.push_str("garbage\r\n\r\n");
    assert_eq!(failure(text.as_bytes()), Error::EntityTooLarge);
}

#[test]
fn repeated_names_take_no_room() {
    let mut text = String::from("GET / HTTP/1.1\r\n");
    for i in 0..16 {
        text.push_str(&format!("X-Header-{}: {}\r\n", i, i));
    }
    text.push_str("X-HEADER-3: again\r\n\r\n");
    let req = parse_request(text.as_bytes()).unwrap();
    assert_eq!(req.try_find_header(&RequestHeader::Other("x-header-3")), Some("3"));
}

#[test]
fn content_length_declares_the_body() {
    let req = parse_request(b"POST /f HTTP/1.1\r\nContent-Length: 5\r\n\r\nhello").unwrap();
    assert_eq!(req.body_length(), Some(5));
    assert_eq!(req.body_inline(), Some(&b"hello"[..]));
    assert_eq!(req.body_captured(), b"hello");
}

#[test]
fn a_body_that_is_not_complete_is_not_handed_out() {
    let req = parse_request(b"POST /f HTTP/1.1\r\nContent-Length: 10\r\n\r\nhello").unwrap();
    assert_eq!(req.body_length(), Some(10));
    assert_eq!(req.body_inline(), None);
    assert_eq!(req.body_captured(), b"hello");
}

#[test]
fn no_bytes_after_the_headers_is_no_body() {
    let req = parse_request(b"POST /f HTTP/1.1\r\nContent-Length: 10\r\n\r\n").unwrap();
    assert_eq!(req.body_length(), Some(10));
    assert_eq!(req.body_inline(), None);
    let req = parse_request(b"POST /f HTTP/1.1\r\nContent-Length: 0\r\n\r\n").unwrap();
    assert_eq!(req.body_length(), Some(0));
    assert_eq!(req.body_inline(), None);
}

#[test]
fn a_body_longer_than_declared_is_malformed() {
    assert_eq!(
        failure(b"POST /f HTTP/1.1\r\nContent-Length: 3\r\n\r\nhello"),
        Error::BadRequest
    );
    assert_eq!(failure(b"GET /f HTTP/1.1\r\nHost: x\r\n\r\nhello"), Error::BadRequest);
}

#[test]
fn a_content_length_that_is_no_number_declares_nothing() {
    let req = parse_request(b"POST /f HTTP/1.1\r\nContent-Length: five\r\n\r\n").unwrap();
    assert_eq!(req.body_length(), None);
    let req = parse_request(b"POST /f HTTP/1.1\r\nContent-Length: -1\r\n\r\n").unwrap();
    assert_eq!(req.body_length(), None);
    let req = parse_request(b"POST /f HTTP/1.1\r\nContent-Length: +1\r\n\r\n").unwrap();
    assert_eq!(req.body_length(), None);
    let req =
        parse_request(b"POST /f HTTP/1.1\r\nContent-Length: 99999999999999999999999\r\n\r\n")
            .unwrap();
    assert_eq!(req.body_length(), None);
    let req =
        parse_request(b"POST /f HTTP/1.1\r\nContent-Length: 18446744073709551615\r\n\r\n").unwrap();
    assert_eq!(req.body_length(), Some(usize::MAX));
    let req =
        parse_request(b"POST /f HTTP/1.1\r\nContent-Length: 18446744073709551616\r\n\r\n").unwrap();
    assert_eq!(req.body_length(), None);
    let req = parse_request(b"POST /f HTTP/1.1\r\nContent-Length: 007\r\n\r\n").unwrap();
    assert_eq!(req.body_length(), Some(7));
}

#[test]
fn classify_ignores_case() {
    assert_eq!(RequestHeader::from_str("content-length"), RequestHeader::ContentLength);
    assert_eq!(RequestHeader::from_str("Content-Length"), RequestHeader::ContentLength);
    assert_eq!(RequestHeader::from_str("CONTENT-LENGTH"), RequestHeader::ContentLength);
}

#[test]
fn classify_knows_every_registered_name() {
    assert_eq!(RequestHeader::from_str("host"), RequestHeader::Host);
    assert_eq!(RequestHeader::from_str("ACCEPT"), RequestHeader::Accept);
    assert_eq!(RequestHeader::from_str("accept-Encoding"), RequestHeader::AcceptEncoding);
    assert_eq!(RequestHeader::from_str("authorization"), RequestHeader::Authorization);
    assert_eq!(RequestHeader::from_str("connection"), RequestHeader::Connection);
    assert_eq!(RequestHeader::from_str("content-encoding"), RequestHeader::ContentEncoding);
    assert_eq!(RequestHeader::from_str("content-type"), RequestHeader::ContentType);
    assert_eq!(RequestHeader::from_str("cookie"), RequestHeader::Cookie);
    assert_eq!(RequestHeader::from_str("date"), RequestHeader::Date);
    assert_eq!(RequestHeader::from_str("rAnGe"), RequestHeader::Range);
}

#[test]
fn classify_keeps_unknown_names_as_they_came() {
    match RequestHeader::from_str("X-Forwarded-For") {
        RequestHeader::Other(text) => assert_eq!(text, "X-Forwarded-For"),
        other => panic!("classified as {:?}", other),
    }
    assert_eq!(RequestHeader::from_str("x-a"), RequestHeader::Other("X-A"));
    assert_ne!(RequestHeader::from_str("x-a"), RequestHeader::Other("x-b"));
    assert_ne!(RequestHeader::from_str("Hos"), RequestHeader::Host);
    assert_ne!(RequestHeader::from_str("Hosts"), RequestHeader::Host);
}

#[test]
fn classify_folds_ascii_only() {
    assert_ne!(RequestHeader::from_str("\u{c9}"), RequestHeader::Other("\u{e9}"));
    assert_eq!(RequestHeader::from_str("\u{e9}A"), RequestHeader::Other("\u{e9}a"));
    assert_ne!(RequestHeader::from_str("Ho\u{17f}t"), RequestHeader::Host);
}

#[test]
fn header_map_refuses_what_does_not_fit() {
    let names: Vec<String> = (0..17).map(|i| format!("X-{}", i)).collect();
    let mut map = HeaderMap::new();
    for name in names.iter().take(16) {
        assert_eq!(map.insert(RequestHeader::Other(name), "v"), Ok(()));
    }
    assert_eq!(map.len(), 16);
    assert_eq!(map.insert(RequestHeader::Other(&names[16]), "w"), Err(InsertError::Full));
    assert_eq!(map.insert(RequestHeader::Host, "w"), Err(InsertError::Full));
    assert_eq!(map.len(), 16);
    for name in names.iter().take(16) {
        assert_eq!(map.get(&RequestHeader::Other(name)), Some("v"));
    }
    assert_eq!(map.get(&RequestHeader::Other(&names[16])), None);
}

#[test]
fn header_map_never_overwrites() {
    let mut map = HeaderMap::new();
    assert_eq!(map.insert(RequestHeader::Host, "a"), Ok(()));
    assert_eq!(map.insert(RequestHeader::Host, "b"), Err(InsertError::Duplicate));
    assert_eq!(map.insert(RequestHeader::Other("X-A"), "1"), Ok(()));
    assert_eq!(map.insert(RequestHeader::Other("x-a"), "2"), Err(InsertError::Duplicate));
    assert_eq!(map.get(&RequestHeader::Host), Some("a"));
    assert_eq!(map.get(&RequestHeader::Other("x-A")), Some("1"));
    assert_eq!(map.len(), 2);
}

#[test]
fn header_map_reports_a_repeated_name_even_when_full() {
    let names: Vec<String> = (0..16).map(|i| format!("X-{}", i)).collect();
    let mut map = HeaderMap::new();
    for name in names.iter() {
        assert_eq!(map.insert(RequestHeader::Other(name), "v"), Ok(()));
    }
    assert_eq!(map.insert(RequestHeader::Other("x-5"), "w"), Err(InsertError::Duplicate));
    assert_eq!(map.get(&RequestHeader::Other("X-5")), Some("v"));
}
