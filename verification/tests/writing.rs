use tinyhttp::config::HttpConfig;
use tinyhttp::config::StaticPage;
use tinyhttp::error::Error;
use tinyhttp::parser::parse_request;
use tinyhttp::request::HttpVersion;
use tinyhttp::status::StatusCode;
use tinyhttp::utils::USizeStrBuf;
use tinyhttp::writer::HttpWriter;

fn text(bytes: Vec<u8>) -> String {
    String::from_utf8(bytes).unwrap()
}

#[test]
fn status_line_in_the_version_of_the_request() {
    let req = parse_request(b"GET / HTTP/1.0\r\n\r\n").unwrap();
    let resp = HttpWriter::new(&req).start(StatusCode::Okay).body_empty();
    assert_eq!(text(resp.into_bytes()), "HTTP/1.0 200 OK\r\n\r\n");
    let req = parse_request(b"GET / HTTP/1.1\r\n\r\n").unwrap();
    let resp = HttpWriter::new(&req).start(StatusCode::Okay).body_empty();
    assert_eq!(text(resp.into_bytes()), "HTTP/1.1 200 OK\r\n\r\n");
}

#[test]
fn no_content_response() {
    let resp = HttpWriter::new_http_11().start(StatusCode::NoContent).body_empty();
    assert_eq!(resp.into_bytes(), b"HTTP/1.1 204 No Content\r\n\r\n");
}

#[test]
fn headers_come_in_the_order_of_writing() {
    let resp = HttpWriter::new_http_11()
        .start(StatusCode::Found)
        .header("Location", "/new")
        .header("Cache-Control", "no-store")
        .body_empty();
    assert_eq!(
        text(resp.into_bytes()),
        "HTTP/1.1 302 Found\r\nLocation: /new\r\nCache-Control: no-store\r\n\r\n"
    );
}

#[test]
fn body_bytes_announces_type_and_length() {
    let resp = HttpWriter::new_http_11()
        .start(StatusCode::Okay)
        .body_bytes(b"hello, world", "text/plain");
    assert_eq!(
        text(resp.into_bytes()),
        "HTTP/1.1 200 OK\r\nContent-Type: text/plain\r\nContent-Length: 12\r\n\r\nhello, world"
    );
}

#[test]
fn body_bytes_may_be_empty() {
    let resp = HttpWriter::new_http_11().start(StatusCode::Okay).body_bytes(b"", "a/b");
    assert_eq!(
        text(resp.into_bytes()),
        "HTTP/1.1 200 OK\r\nContent-Type: a/b\r\nContent-Length: 0\r\n\r\n"
    );
}

#[test]
fn body_str_counts_bytes_not_characters() {
    let resp = HttpWriter::new_http_11()
        .start(StatusCode::Okay)
        .body_str("caf\u{e9}", "text/plain; charset=UTF-8");
    assert_eq!(
        text(resp.into_bytes()),
        "HTTP/1.1 200 OK\r\nContent-Type: text/plain; charset=UTF-8\r\nContent-Length: 5\r\n\r\ncaf\u{e9}"
    );
}

#[test]
fn static_pages_carry_their_content_type() {
    assert_eq!(StaticPage::html("<p>").content_type(), "text/html; charset=UTF-8");
    assert_eq!(StaticPage::text("p").content_type(), "text/plain; charset=UTF-8");
    assert_eq!(StaticPage::json("{}").content_type(), "text/json; charset=UTF-8");
    assert_eq!(StaticPage::html("<p>").body(), "<p>");
    assert_eq!(StaticPage::text("p").body(), "p");
    assert_eq!(StaticPage::json("{}").body(), "{}");
}

#[test]
fn static_page_response() {
    let resp = HttpWriter::new_http_11().static_page(StaticPage::json("{}"), StatusCode::Created);
    assert_eq!(
        text(resp.into_bytes()),
        "HTTP/1.1 201 Created\r\nContent-Type: text/json; charset=UTF-8\r\nContent-Length: 2\r\n\r\n{}"
    );
    let resp = HttpWriter::new_http_11()
        .start(StatusCode::Okay)
        .header("X-A", "b")
        .body_static_page(StaticPage::text("hi"));
    assert_eq!(
        text(resp.into_bytes()),
        "HTTP/1.1 200 OK\r\nX-A: b\r\nContent-Type: text/plain; charset=UTF-8\r\nContent-Length: 2\r\n\r\nhi"
    );
}

#[test]
fn static_page_or_empty_response() {
    let resp = HttpWriter::new_http_11()
        .static_page_or_empty(Some(StaticPage::html("<h1>gone</h1>")), StatusCode::NotFound);
    assert_eq!(
        text(resp.into_bytes()),
        "HTTP/1.1 404 Not Found\r\nContent-Type: text/html; charset=UTF-8\r\nContent-Length: 13\r\n\r\n<h1>gone</h1>"
    );
    let resp = HttpWriter::new_http_11().static_page_or_empty(None, StatusCode::NotFound);
    assert_eq!(text(resp.into_bytes()), "HTTP/1.1 404 Not Found\r\n\r\n");
}

#[test]
fn static_page_or_empty_with_headers() {
    let extra = [("WWW-Authenticate", "Basic"), ("X-B", "c")];
    let resp = HttpWriter::new_http_11().static_page_or_empty_with(
        None,
        StatusCode::Unauthorized,
        &extra,
    );
    assert_eq!(
        text(resp.into_bytes()),
        "HTTP/1.1 401 Unauthorized\r\nWWW-Authenticate: Basic\r\nX-B: c\r\n\r\n"
    );
    let resp = HttpWriter::new_http_11().static_page_or_empty_with(
        Some(StaticPage::text("no")),
        StatusCode::Unauthorized,
        &extra[..1],
    );
    assert_eq!(
        text(resp.into_bytes()),
        "HTTP/1.1 401 Unauthorized\r\nWWW-Authenticate: Basic\r\nContent-Type: text/plain; charset=UTF-8\r\nContent-Length: 2\r\n\r\nno"
    );
    let resp =
        HttpWriter::new_http_11().static_page_or_empty_with(None, StatusCode::NoContent, &[]);
    assert_eq!(text(resp.into_bytes()), "HTTP/1.1 204 No Content\r\n\r\n");
}

#[test]
fn chunked_writer_counts_what_is_written() {
    let mut w = HttpWriter::new_http_11().start(StatusCode::Okay).body_chunked(10, "text/plain");
    assert_eq!(w.total(), 10);
    assert_eq!(w.written(), 0);
    assert_eq!(
        text(w.take_pending()),
        "HTTP/1.1 200 OK\r\nContent-Type: text/plain\r\nContent-Length: 10\r\n\r\n"
    );
    assert!(matches!(w.write_chunk(b"hello"), Ok(None)));
    assert_eq!(w.written(), 5);
    assert!(matches!(w.write_chunk_str(", wor"), Ok(None)));
    assert_eq!(w.written(), 10);
    assert_eq!(w.total(), 10);
    assert_eq!(text(w.take_pending()), "hello, wor");
    match w.write_chunk(b"more") {
        Ok(Some(resp)) => assert_eq!(resp.into_bytes(), b""),
        _ => panic!("the body is complete and no response came"),
    }
    assert_eq!(w.written(), 10);
    assert_eq!(w.take_pending(), b"");
}

#[test]
fn chunked_writer_gives_the_response_only_when_complete() {
    let mut w = HttpWriter::new_http_11().start(StatusCode::Okay).body_chunked(4, "a/b");
    assert!(matches!(w.write_chunk(b""), Ok(None)));
    assert!(matches!(w.write_chunk(b"ab"), Ok(None)));
    assert!(matches!(w.write_chunk(b""), Ok(None)));
    assert!(matches!(w.write_chunk(b"cd"), Ok(None)));
    match w.write_chunk(b"") {
        Ok(Some(resp)) => assert_eq!(
            text(resp.into_bytes()),
            "HTTP/1.1 200 OK\r\nContent-Type: a/b\r\nContent-Length: 4\r\n\r\nabcd"
        ),
        _ => panic!("the body is complete and no response came"),
    }
    assert!(matches!(w.write_chunk(b""), Ok(Some(_))));
    assert!(matches!(w.write_chunk(b"late"), Ok(Some(_))));
    assert_eq!(w.written(), 4);
}

#[test]
fn chunked_writer_of_no_bytes_is_complete_at_once() {
    let mut w = HttpWriter::new_http_11().start(StatusCode::Okay).body_chunked(0, "a/b");
    match w.write_chunk(b"x") {
        Ok(Some(resp)) => assert_eq!(
            text(resp.into_bytes()),
            "HTTP/1.1 200 OK\r\nContent-Type: a/b\r\nContent-Length: 0\r\n\r\n"
        ),
        _ => panic!("the body is complete and no response came"),
    }
}

#[test]
fn chunked_writer_refuses_to_overrun() {
    let mut w = HttpWriter::new_http_11().start(StatusCode::Okay).body_chunked(4, "a/b");
    let head = w.take_pending();
    assert!(!head.is_empty());
    assert!(matches!(w.write_chunk(b"abc"), Ok(None)));
    assert!(matches!(w.write_chunk(b"de"), Err(Error::OutOfRange)));
    assert_eq!(w.written(), 3);
    assert_eq!(w.take_pending(), b"abc");
    assert!(matches!(w.write_chunk(b"d"), Ok(None)));
    assert_eq!(w.written(), 4);
}

#[test]
fn stringify_writes_decimal() {
    let mut buf = USizeStrBuf::new();
    assert_eq!(buf.stringify(0), "0");
    assert_eq!(buf.stringify(7), "7");
    assert_eq!(buf.stringify(10), "10");
    assert_eq!(buf.stringify(12345), "12345");
    assert_eq!(buf.stringify(1000000), "1000000");
    assert_eq!(buf.stringify(usize::MAX), "18446744073709551615");
    assert_eq!(buf.stringify(42), "42");
}

#[test]
fn status_codes_have_number_and_reason() {
    assert_eq!(StatusCode::Okay.as_u16(), 200);
    assert_eq!(StatusCode::Okay.as_str(), "200 OK");
    assert_eq!(StatusCode::NoContent.as_u16(), 204);
    assert_eq!(StatusCode::NoContent.as_str(), "204 No Content");
    assert_eq!(StatusCode::BadRequest.as_str(), "400 Bad Request");
    assert_eq!(StatusCode::Unauthorized.as_str(), "401 Unauthorized");
    assert_eq!(StatusCode::NotFound.as_u16(), 404);
    assert_eq!(StatusCode::NotFound.as_str(), "404 Not Found");
    assert_eq!(StatusCode::HeaderFieldsTooLarge.as_u16(), 431);
    assert_eq!(StatusCode::InternalServerError.as_str(), "500 Internal Server Error");
    let all = [
        StatusCode::Okay,
        StatusCode::Created,
        StatusCode::Accepted,
        StatusCode::NoContent,
        StatusCode::PartialContent,
        StatusCode::MovedPermanently,
        StatusCode::Found,
        StatusCode::NotModified,
        StatusCode::BadRequest,
        StatusCode::Unauthorized,
        StatusCode::Forbidden,
        StatusCode::NotFound,
        StatusCode::MethodNotAllowed,
        StatusCode::PayloadTooLarge,
        StatusCode::RangeNotSatisfiable,
        StatusCode::HeaderFieldsTooLarge,
        StatusCode::InternalServerError,
        StatusCode::NotImplemented,
        StatusCode::ServiceUnavailable,
    ];
    for code in all {
        assert!(code.as_str().starts_with(&format!("{} ", code.as_u16())));
    }
}

#[test]
fn default_configuration() {
    let config = HttpConfig::default();
    assert_eq!(config.port, 80);
    assert_eq!(config.keepalive, Some(5));
    assert!(config.basic_auth.is_none());
    assert!(config.http_400.is_none());
    assert!(config.http_401.is_none());
    assert!(config.http_404.is_none());
    assert!(config.http_500.is_none());
    assert_eq!(config.socket_timeout_secs(), 5);
    let mut config = config;
    config.keepalive = None;
    assert_eq!(config.socket_timeout_secs(), 5);
    config.keepalive = Some(30);
    assert_eq!(config.socket_timeout_secs(), 30);
    assert_eq!(HttpVersion::default(), HttpVersion::Http11);
}

#[test]
fn what_is_written_as_a_request_is_read_as_it() {
    let methods = ["GET", "HEAD", "POST", "OPTIONS", "TRACE", "DELETE", "PUT", "PATCH", "CONNECT"];
    let headers = [("Host", "example.org"), ("X-Token", "a b\tc"), ("Accept", ""), ("Cookie", "k=v; l=w")];
    for method in methods {
        for version in ["HTTP/1.0", "HTTP/1.1"] {
            let mut wire = format!("{} /p?q=1 {}\r\n", method, version);
            for (name, value) in headers {
                wire.push_str(&format!("{}: {}\r\n", name, value));
            }
            wire.push_str("\r\n");
            let req = parse_request(wire.as_bytes()).unwrap();
            assert_eq!(format!("{:?}", req.method()).to_uppercase(), method);
            assert_eq!(req.path(), "/p?q=1");
            assert_eq!(
                req.version(),
                if version == "HTTP/1.0" { HttpVersion::Http10 } else { HttpVersion::Http11 }
            );
            for (name, value) in headers {
                let key = tinyhttp::headers::RequestHeader::from_str(name);
                assert_eq!(req.try_find_header(&key), Some(value));
            }
        }
    }
}
