//! The request parser: from the bytes of a buffer to a request.

use crate::error::Error;
use crate::grammar::all_token;
use crate::grammar::COLON;
use crate::grammar::CR;
use crate::grammar::decimal_usize;
use crate::grammar::decimal_value;
use crate::grammar::digit_byte;
use crate::grammar::find_byte;
use crate::grammar::find_crlf;
use crate::grammar::hspace_byte;
use crate::grammar::HT;
use crate::grammar::lemma_ascii_is_utf8;
use crate::grammar::lemma_decimal_prefix;
use crate::grammar::LF;
use crate::grammar::line_byte;
use crate::grammar::method_of;
use crate::grammar::MIN_REQUEST_LEN;
use crate::grammar::parse_header_line;
use crate::grammar::parse_headers;
use crate::grammar::parse_request_line;
use crate::grammar::parse_spec;
use crate::grammar::request_spec;
use crate::grammar::skip_byte;
use crate::grammar::SP;
use crate::grammar::token_byte;
use crate::grammar::trim;
use crate::grammar::trim_end;
use crate::grammar::trim_start;
use crate::grammar::valid_value;
use crate::grammar::version_of;
use crate::header_map::HeaderMap;
use crate::header_map::InsertError;
use crate::headers::key_of;
use crate::headers::RequestHeader;
use crate::request::HttpMethod;
use crate::request::HttpRequest;
use crate::request::HttpVersion;
use vstd::prelude::*;
use vstd::slice::slice_subrange;
use vstd::string::StringSliceAdditionalSpecFns;
use vstd::utf8::valid_utf8;

verus! {

/// `core::str::from_utf8`: the bytes as text where they are valid UTF-8, and
/// nothing where they are not. The text has the bytes it was made from.
#[verifier::external_body]
pub(crate) fn str_from_utf8<'a>(bytes: &'a [u8]) -> (r: Option<&'a str>)
    ensures
        r.is_some() == valid_utf8(bytes@),
        r matches Some(s) ==> s.spec_bytes() == bytes@,
{
    core::str::from_utf8(bytes).ok()
}

fn is_token(c: u8) -> (r: bool)
    ensures
        r == token_byte(c),
{
    match c {
        128..=255 => false,
        0..=31 => false,
        0x28 => false,
        0x29 => false,
        0x3c => false,
        0x3e => false,
        0x40 => false,
        0x2c => false,
        0x3b => false,
        0x3a => false,
        0x5c => false,
        0x22 => false,
        0x2f => false,
        0x5b => false,
        0x5d => false,
        0x3f => false,
        0x3d => false,
        0x7b => false,
        0x7d => false,
        0x20 => false,
        _ => true,
    }
}

fn till_line_ending(c: u8) -> (r: bool)
    ensures
        r == line_byte(c),
{
    c != CR && c != LF
}

fn is_horizontal_space(c: u8) -> (r: bool)
    ensures
        r == hspace_byte(c),
{
    c == SP || c == HT
}

/// Whether two byte strings are the same.
pub(crate) fn bytes_eq(a: &[u8], b: &[u8]) -> (r: bool)
    ensures
        r == (a@ == b@),
{
    if a.len() != b.len() {
        return false;
    }
    let mut i: usize = 0;
    while i < a.len()
        invariant
            a.len() == b.len(),
            i <= a.len(),
            forall|j: int| 0 <= j < i ==> a@[j] == b@[j],
        decreases a.len() - i,
    {
        if a[i] != b[i] {
            return false;
        }
        i += 1;
    }
    assert(a@ =~= b@);
    true
}

/// The first position at or after `from` that holds `b`.
fn find_byte_from(buf: &[u8], from: usize, b: u8) -> (r: usize)
    requires
        from <= buf.len(),
    ensures
        r == find_byte(buf@, from as int, b),
        from <= r <= buf.len(),
{
    let mut i: usize = from;
    while i < buf.len() && buf[i] != b
        invariant
            from <= i <= buf.len(),
            find_byte(buf@, from as int, b) == find_byte(buf@, i as int, b),
        decreases buf.len() - i,
    {
        i += 1;
    }
    i
}

/// The first position at or after `from` that does not hold `b`.
fn skip_byte_from(buf: &[u8], from: usize, b: u8) -> (r: usize)
    requires
        from <= buf.len(),
    ensures
        r == skip_byte(buf@, from as int, b),
        from <= r <= buf.len(),
{
    let mut i: usize = from;
    while i < buf.len() && buf[i] == b
        invariant
            from <= i <= buf.len(),
            skip_byte(buf@, from as int, b) == skip_byte(buf@, i as int, b),
        decreases buf.len() - i,
    {
        i += 1;
    }
    i
}

/// The first position at or after `from` where a line ending stands.
fn find_line_end(buf: &[u8], from: usize) -> (r: usize)
    requires
        from <= buf.len(),
    ensures
        r == find_crlf(buf@, from as int),
        r == buf.len() || (from <= r && r + 2 <= buf.len()),
{
    let mut i: usize = from;
    while i < buf.len() && i + 1 < buf.len()
        invariant
            from <= i <= buf.len(),
            find_crlf(buf@, from as int) == find_crlf(buf@, i as int),
        decreases buf.len() - i,
    {
        if buf[i] == CR && buf[i + 1] == LF {
            return i;
        }
        i += 1;
    }
    buf.len()
}

struct RequestLine<'a> {
    method: HttpMethod,
    path: &'a str,
    version: HttpVersion,
}

fn http_method(token: &[u8]) -> (r: Option<HttpMethod>)
    ensures
        r == method_of(token@),
{
    if bytes_eq(token, "GET".as_bytes()) {
        Some(HttpMethod::Get)
    } else if bytes_eq(token, "HEAD".as_bytes()) {
        Some(HttpMethod::Head)
    } else if bytes_eq(token, "POST".as_bytes()) {
        Some(HttpMethod::Post)
    } else if bytes_eq(token, "OPTIONS".as_bytes()) {
        Some(HttpMethod::Options)
    } else if bytes_eq(token, "TRACE".as_bytes()) {
        Some(HttpMethod::Trace)
    } else if bytes_eq(token, "DELETE".as_bytes()) {
        Some(HttpMethod::Delete)
    } else if bytes_eq(token, "PUT".as_bytes()) {
        Some(HttpMethod::Put)
    } else if bytes_eq(token, "PATCH".as_bytes()) {
        Some(HttpMethod::Patch)
    } else if bytes_eq(token, "CONNECT".as_bytes()) {
        Some(HttpMethod::Connect)
    } else {
        None
    }
}

fn http_path<'a>(bytes: &'a [u8]) -> (r: Option<&'a str>)
    ensures
        r.is_some() == (bytes@.len() > 0 && valid_utf8(bytes@)),
        r matches Some(s) ==> s.spec_bytes() == bytes@,
{
    if bytes.len() == 0 {
        return None;
    }
    str_from_utf8(bytes)
}

fn http_version(token: &[u8]) -> (r: Option<HttpVersion>)
    ensures
        r == version_of(token@),
{
    if bytes_eq(token, "HTTP/1.0".as_bytes()) {
        Some(HttpVersion::Http10)
    } else if bytes_eq(token, "HTTP/1.1".as_bytes()) {
        Some(HttpVersion::Http11)
    } else {
        None
    }
}

fn request_line<'a>(line: &'a [u8]) -> (r: Option<RequestLine<'a>>)
    ensures
        match r {
            Some(l) => parse_request_line(line@) == Some(
                (l.method, l.path.spec_bytes(), l.version),
            ),
            None => parse_request_line(line@).is_none(),
        },
{
    let method_end = find_byte_from(line, 0, SP);
    let path_start = skip_byte_from(line, method_end, SP);
    let path_end = find_byte_from(line, path_start, SP);
    let version_start = skip_byte_from(line, path_end, SP);
    let method = http_method(slice_subrange(line, 0, method_end));
    let path = http_path(slice_subrange(line, path_start, path_end));
    let version = http_version(slice_subrange(line, version_start, line.len()));
    match (method, path, version) {
        (Some(method), Some(path), Some(version)) => Some(RequestLine { method, path, version }),
        _ => None,
    }
}

fn header_name<'a>(bytes: &'a [u8]) -> (r: Option<RequestHeader<'a>>)
    ensures
        r.is_some() == (bytes@.len() > 0 && all_token(bytes@)),
        r matches Some(h) ==> h@ == key_of(bytes@),
{
    if bytes.len() == 0 {
        return None;
    }
    let mut i: usize = 0;
    while i < bytes.len()
        invariant
            i <= bytes.len(),
            forall|j: int| 0 <= j < i ==> token_byte(#[trigger] bytes@[j]),
        decreases bytes.len() - i,
    {
        if !is_token(bytes[i]) {
            return None;
        }
        i += 1;
    }
    proof {
        lemma_ascii_is_utf8(bytes@);
    }
    match str_from_utf8(bytes) {
        Some(name) => Some(RequestHeader::from_str(name)),
        None => None,
    }
}

/// The part of `bytes` that is left when the spaces and tabs at either end
/// are taken away.
fn trim_bytes<'a>(bytes: &'a [u8]) -> (r: &'a [u8])
    ensures
        r@ == trim(bytes@),
{
    let mut end: usize = bytes.len();
    assert(bytes@.subrange(0, end as int) =~= bytes@);
    while end > 0 && is_horizontal_space(bytes[end - 1])
        invariant
            end <= bytes.len(),
            trim_end(bytes@) == trim_end(bytes@.subrange(0, end as int)),
        decreases end,
    {
        assert(bytes@.subrange(0, end as int).drop_last() =~= bytes@.subrange(0, end - 1));
        end -= 1;
    }
    let ghost kept = bytes@.subrange(0, end as int);
    let mut start: usize = 0;
    while start < end && is_horizontal_space(bytes[start])
        invariant
            start <= end <= bytes.len(),
            kept == bytes@.subrange(0, end as int),
            trim_start(kept) == trim_start(bytes@.subrange(start as int, end as int)),
        decreases end - start,
    {
        assert(bytes@.subrange(start as int, end as int).drop_first() =~= bytes@.subrange(
            start + 1,
            end as int,
        ));
        start += 1;
    }
    slice_subrange(bytes, start, end)
}

fn header_value<'a>(bytes: &'a [u8]) -> (r: Option<&'a str>)
    ensures
        r.is_some() == valid_value(trim(bytes@)),
        r matches Some(v) ==> v.spec_bytes() == trim(bytes@),
{
    let value = trim_bytes(bytes);
    let mut i: usize = 0;
    while i < value.len()
        invariant
            i <= value.len(),
            value@ == trim(bytes@),
            forall|j: int| 0 <= j < i ==> line_byte(#[trigger] value@[j]),
        decreases value.len() - i,
    {
        if !till_line_ending(value[i]) {
            assert(!line_byte(value@[i as int]));
            return None;
        }
        i += 1;
    }
    str_from_utf8(value)
}

fn header<'a>(line: &'a [u8]) -> (r: Option<(RequestHeader<'a>, &'a str)>)
    ensures
        match r {
            Some((name, value)) => parse_header_line(line@) matches Some((n, v)) && name@
                == key_of(n) && value.spec_bytes() == v,
            None => parse_header_line(line@).is_none(),
        },
{
    let colon = find_byte_from(line, 0, COLON);
    if colon >= line.len() {
        return None;
    }
    let name = header_name(slice_subrange(line, 0, colon));
    let value = header_value(slice_subrange(line, colon + 1, line.len()));
    match (name, value) {
        (Some(name), Some(value)) => Some((name, value)),
        _ => None,
    }
}

/// The number that a string of decimal digits denotes, where it fits.
fn parse_decimal(bytes: &[u8]) -> (r: Option<usize>)
    ensures
        r == decimal_usize(bytes@),
{
    if bytes.len() == 0 {
        return None;
    }
    let mut acc: usize = 0;
    let mut i: usize = 0;
    assert(bytes@.subrange(0, 0) =~= Seq::<u8>::empty());
    while i < bytes.len()
        invariant
            i <= bytes.len(),
            forall|j: int| 0 <= j < i ==> digit_byte(#[trigger] bytes@[j]),
            acc == decimal_value(bytes@.subrange(0, i as int)),
        decreases bytes.len() - i,
    {
        let c = bytes[i];
        if c < 0x30 || c > 0x39 {
            assert(!digit_byte(bytes@[i as int]));
            return None;
        }
        let d: usize = (c - 0x30) as usize;
        proof {
            let longer = bytes@.subrange(0, i + 1);
            assert(longer.drop_last() =~= bytes@.subrange(0, i as int));
            assert(longer.last() == c);
            assert(decimal_value(longer) == acc * 10 + d);
        }
        if acc > (usize::MAX - d) / 10 {
            proof {
                if forall|j: int| 0 <= j < bytes@.len() ==> digit_byte(#[trigger] bytes@[j]) {
                    lemma_decimal_prefix(bytes@, i + 1);
                }
            }
            return None;
        }
        acc = acc * 10 + d;
        i += 1;
    }
    assert(bytes@.subrange(0, i as int) =~= bytes@);
    Some(acc)
}

/// Parses a request: the request line, the headers up to the blank line, and
/// what the buffer holds of the body.
pub fn request<'a>(buf: &'a [u8]) -> (r: Result<HttpRequest<'a>, Error>)
    ensures
        match r {
            Ok(req) => request_spec(buf@) == Ok::<_, Error>(req@) && req.wf(),
            Err(e) => request_spec(buf@) == Err::<crate::request::RequestModel, _>(e),
        },
{
    let line_end = find_line_end(buf, 0);
    if line_end >= buf.len() {
        return Err(Error::BadRequest);
    }
    let line = match request_line(slice_subrange(buf, 0, line_end)) {
        Some(line) => line,
        None => {
            return Err(Error::BadRequest);
        },
    };
    let mut headers = HeaderMap::new();
    let mut pos: usize = line_end + 2;
    let mut done = false;
    let ghost target = parse_headers(buf@, line_end + 2, Seq::empty());
    assert(headers@ =~= Seq::empty());
    while !done
        invariant
            pos <= buf.len(),
            headers.wf(),
            line_end == find_crlf(buf@, 0),
            line_end < buf.len(),
            parse_request_line(buf@.subrange(0, line_end as int)) == Some(
                (line.method, line.path.spec_bytes(), line.version),
            ),
            target == parse_headers(buf@, line_end + 2, Seq::empty()),
            !done ==> target == parse_headers(buf@, pos as int, headers@),
            done ==> target == Ok::<_, Error>((headers@, pos as int)),
        decreases buf.len() - pos,
    {
        let end = find_line_end(buf, pos);
        if end >= buf.len() {
            return Err(Error::BadRequest);
        }
        if end == pos {
            done = true;
        } else {
            match header(slice_subrange(buf, pos, end)) {
                None => {
                    return Err(Error::BadRequest);
                },
                Some((name, value)) => {
                    match headers.insert(name, value) {
                        Err(InsertError::Full) => {
                            return Err(Error::EntityTooLarge);
                        },
                        _ => {},
                    }
                },
            }
        }
        pos = end + 2;
    }
    let body_length = match headers.get(&RequestHeader::ContentLength) {
        Some(v) => parse_decimal(v.as_bytes()),
        None => None,
    };
    let captured = slice_subrange(buf, pos, buf.len());
    let declared: usize = match body_length {
        Some(n) => n,
        None => 0,
    };
    if captured.len() > declared {
        return Err(Error::BadRequest);
    }
    Ok(HttpRequest::new(line.version, line.method, line.path, headers, body_length, captured))
}

/// Parses the request that a buffer holds. A buffer too short to hold any
/// request is refused before a look at what it holds.
pub fn parse_request<'a>(buf: &'a [u8]) -> (r: Result<HttpRequest<'a>, Error>)
    ensures
        match r {
            Ok(req) => parse_spec(buf@) == Ok::<_, Error>(req@) && req.wf(),
            Err(e) => parse_spec(buf@) == Err::<crate::request::RequestModel, _>(e),
        },
{
    if buf.len() < MIN_REQUEST_LEN {
        return Err(Error::BadRequest);
    }
    request(buf)
}

} // verus!
