//! The grammar of a request, as functions on byte strings.

use crate::error::Error;
use crate::header_map::has_key;
use crate::header_map::MAX_HEADER_COUNT;
use crate::header_map::value_of;
use crate::headers::HeaderKey;
use crate::headers::key_of;
use crate::request::HttpMethod;
use crate::request::HttpVersion;
use crate::request::RequestModel;
use vstd::prelude::*;
use vstd::string::is_ascii;
use vstd::string::StringSliceAdditionalSpecFns;
use vstd::utf8::valid_utf8;

verus! {

pub const HT: u8 = 9;

pub const LF: u8 = 10;

pub const CR: u8 = 13;

pub const SP: u8 = 32;

pub const COLON: u8 = 58;

/// No request of fewer bytes can be valid: the shortest request line, with
/// its line ending, has this many.
pub const MIN_REQUEST_LEN: usize = 16;

/// A byte that may stand in a token: a printable ASCII character, or DEL,
/// that is not one of the separators `( ) < > @ , ; : \ " / [ ] ? = { }` and
/// not a space.
pub open spec fn token_byte(c: u8) -> bool {
    &&& 32 < c < 128
    &&& c != 0x28 && c != 0x29 && c != 0x3c && c != 0x3e && c != 0x40
    &&& c != 0x2c && c != 0x3b && c != 0x3a && c != 0x5c && c != 0x22
    &&& c != 0x2f && c != 0x5b && c != 0x5d && c != 0x3f && c != 0x3d
    &&& c != 0x7b && c != 0x7d
}

/// A space or a horizontal tab.
pub open spec fn hspace_byte(c: u8) -> bool {
    c == SP || c == HT
}

/// A decimal digit.
pub open spec fn digit_byte(c: u8) -> bool {
    0x30 <= c <= 0x39
}

/// Every byte may stand in a token.
pub open spec fn all_token(s: Seq<u8>) -> bool {
    forall|i: int| 0 <= i < s.len() ==> token_byte(#[trigger] s[i])
}

/// The first position at or after `from` that holds the byte `b`, or the
/// length of `s` where there is none.
pub open spec fn find_byte(s: Seq<u8>, from: int, b: u8) -> int
    decreases s.len() - from,
{
    if from >= s.len() {
        s.len() as int
    } else if s[from] == b {
        from
    } else {
        find_byte(s, from + 1, b)
    }
}

/// The first position at or after `from` that does not hold the byte `b`, or
/// the length of `s` where there is none.
pub open spec fn skip_byte(s: Seq<u8>, from: int, b: u8) -> int
    decreases s.len() - from,
{
    if from >= s.len() {
        s.len() as int
    } else if s[from] != b {
        from
    } else {
        skip_byte(s, from + 1, b)
    }
}

/// A carriage return and a line feed stand at position `i`.
pub open spec fn crlf_at(s: Seq<u8>, i: int) -> bool {
    0 <= i && i + 1 < s.len() && s[i] == CR && s[i + 1] == LF
}

/// The first position at or after `from` where a line ending stands, or the
/// length of `s` where there is none.
pub open spec fn find_crlf(s: Seq<u8>, from: int) -> int
    decreases s.len() - from,
{
    if from + 1 >= s.len() {
        s.len() as int
    } else if crlf_at(s, from) {
        from
    } else {
        find_crlf(s, from + 1)
    }
}

/// `find_crlf` stays in range, points at a line ending where it points at
/// anything, and passes over none.
pub proof fn lemma_find_crlf(s: Seq<u8>, from: int)
    requires
        0 <= from,
    ensures
        find_crlf(s, from) == s.len() || (from <= find_crlf(s, from) && crlf_at(
            s,
            find_crlf(s, from),
        )),
        forall|i: int| from <= i < find_crlf(s, from) ==> !crlf_at(s, i),
    decreases s.len() - from,
{
    if from + 1 < s.len() && !crlf_at(s, from) {
        lemma_find_crlf(s, from + 1);
    }
}

/// `find_byte` stays in range, points at the byte where it points at
/// anything, and passes over none.
pub proof fn lemma_find_byte(s: Seq<u8>, from: int, b: u8)
    requires
        0 <= from <= s.len(),
    ensures
        from <= find_byte(s, from, b) <= s.len(),
        find_byte(s, from, b) < s.len() ==> s[find_byte(s, from, b)] == b,
        forall|i: int| from <= i < find_byte(s, from, b) ==> s[i] != b,
    decreases s.len() - from,
{
    if from < s.len() && s[from] != b {
        lemma_find_byte(s, from + 1, b);
    }
}

/// `skip_byte` stays in range, points at another byte where it points at
/// anything, and passes over nothing but the byte.
pub proof fn lemma_skip_byte(s: Seq<u8>, from: int, b: u8)
    requires
        0 <= from <= s.len(),
    ensures
        from <= skip_byte(s, from, b) <= s.len(),
        skip_byte(s, from, b) < s.len() ==> s[skip_byte(s, from, b)] != b,
        forall|i: int| from <= i < skip_byte(s, from, b) ==> s[i] == b,
    decreases s.len() - from,
{
    if from < s.len() && s[from] == b {
        lemma_skip_byte(s, from + 1, b);
    }
}

/// `s` without the spaces and tabs at its end.
pub open spec fn trim_end(s: Seq<u8>) -> Seq<u8>
    decreases s.len(),
{
    if s.len() > 0 && hspace_byte(s.last()) {
        trim_end(s.drop_last())
    } else {
        s
    }
}

/// `s` without the spaces and tabs at its start.
pub open spec fn trim_start(s: Seq<u8>) -> Seq<u8>
    decreases s.len(),
{
    if s.len() > 0 && hspace_byte(s.first()) {
        trim_start(s.drop_first())
    } else {
        s
    }
}

/// `s` without the spaces and tabs at either end.
pub open spec fn trim(s: Seq<u8>) -> Seq<u8> {
    trim_start(trim_end(s))
}

/// The method that a token names.
pub open spec fn method_of(token: Seq<u8>) -> Option<HttpMethod> {
    if token == "GET".spec_bytes() {
        Some(HttpMethod::Get)
    } else if token == "HEAD".spec_bytes() {
        Some(HttpMethod::Head)
    } else if token == "POST".spec_bytes() {
        Some(HttpMethod::Post)
    } else if token == "OPTIONS".spec_bytes() {
        Some(HttpMethod::Options)
    } else if token == "TRACE".spec_bytes() {
        Some(HttpMethod::Trace)
    } else if token == "DELETE".spec_bytes() {
        Some(HttpMethod::Delete)
    } else if token == "PUT".spec_bytes() {
        Some(HttpMethod::Put)
    } else if token == "PATCH".spec_bytes() {
        Some(HttpMethod::Patch)
    } else if token == "CONNECT".spec_bytes() {
        Some(HttpMethod::Connect)
    } else {
        None
    }
}

/// The version that a token names.
pub open spec fn version_of(token: Seq<u8>) -> Option<HttpVersion> {
    if token == "HTTP/1.0".spec_bytes() {
        Some(HttpVersion::Http10)
    } else if token == "HTTP/1.1".spec_bytes() {
        Some(HttpVersion::Http11)
    } else {
        None
    }
}

/// The token that names a version.
pub open spec fn version_text(v: HttpVersion) -> Seq<u8> {
    match v {
        HttpVersion::Http10 => "HTTP/1.0".spec_bytes(),
        HttpVersion::Http11 => "HTTP/1.1".spec_bytes(),
    }
}

/// The token that names a method.
pub open spec fn method_text(m: HttpMethod) -> Seq<u8> {
    match m {
        HttpMethod::Get => "GET".spec_bytes(),
        HttpMethod::Head => "HEAD".spec_bytes(),
        HttpMethod::Post => "POST".spec_bytes(),
        HttpMethod::Options => "OPTIONS".spec_bytes(),
        HttpMethod::Trace => "TRACE".spec_bytes(),
        HttpMethod::Delete => "DELETE".spec_bytes(),
        HttpMethod::Put => "PUT".spec_bytes(),
        HttpMethod::Patch => "PATCH".spec_bytes(),
        HttpMethod::Connect => "CONNECT".spec_bytes(),
    }
}

/// A line ending.
pub open spec fn crlf() -> Seq<u8> {
    seq![CR, LF]
}

/// A header without its line ending: the name, a colon and a space, and
/// the value.
pub open spec fn header_text(name: Seq<u8>, value: Seq<u8>) -> Seq<u8> {
    name + seq![COLON, SP] + value
}

/// A header as it stands on the wire, with its line ending.
pub open spec fn header_line(name: Seq<u8>, value: Seq<u8>) -> Seq<u8> {
    header_text(name, value) + crlf()
}

/// Headers as they stand on the wire, one line each.
pub open spec fn header_lines(headers: Seq<(Seq<u8>, Seq<u8>)>) -> Seq<u8>
    decreases headers.len(),
{
    if headers.len() == 0 {
        Seq::empty()
    } else {
        header_line(headers.first().0, headers.first().1) + header_lines(headers.drop_first())
    }
}

/// The lines of headers with one more at the end are the lines of the
/// headers, and then the line of that one.
pub proof fn lemma_header_lines_push(headers: Seq<(Seq<u8>, Seq<u8>)>, last: (Seq<u8>, Seq<u8>))
    ensures
        header_lines(headers.push(last)) == header_lines(headers) + header_line(last.0, last.1),
    decreases headers.len(),
{
    let longer = headers.push(last);
    if headers.len() == 0 {
        assert(longer.first() == last);
        assert(longer.drop_first().len() == 0);
        assert(header_lines(longer.drop_first()) =~= Seq::empty());
        assert(header_lines(headers) =~= Seq::empty());
        assert(header_lines(longer) =~= header_lines(headers) + header_line(last.0, last.1));
    } else {
        assert(longer.first() == headers.first());
        assert(longer.drop_first() =~= headers.drop_first().push(last));
        lemma_header_lines_push(headers.drop_first(), last);
        assert(header_lines(longer) =~= header_lines(headers) + header_line(last.0, last.1));
    }
}

/// The three parts of a request line, which comes without its line ending:
/// a method, one or more spaces, a path of one or more bytes none of which is
/// a space, one or more spaces, and a version up to the end of the line.
pub open spec fn parse_request_line(line: Seq<u8>) -> Option<(HttpMethod, Seq<u8>, HttpVersion)> {
    let method_end = find_byte(line, 0, SP);
    let path_start = skip_byte(line, method_end, SP);
    let path_end = find_byte(line, path_start, SP);
    let version_start = skip_byte(line, path_end, SP);
    let method = method_of(line.subrange(0, method_end));
    let path = line.subrange(path_start, path_end);
    let version = version_of(line.subrange(version_start, line.len() as int));
    if method.is_some() && path_start < path_end && valid_utf8(path) && version.is_some() {
        Some((method.unwrap(), path, version.unwrap()))
    } else {
        None
    }
}

/// A byte that is neither a carriage return nor a line feed.
pub open spec fn line_byte(c: u8) -> bool {
    c != CR && c != LF
}

/// A header value is text on one line.
pub open spec fn valid_value(v: Seq<u8>) -> bool {
    &&& forall|i: int| 0 <= i < v.len() ==> line_byte(#[trigger] v[i])
    &&& valid_utf8(v)
}

/// The name and the value of a header line, which comes without its line
/// ending: the name is the token before the first colon, the value what
/// follows the colon, trimmed.
pub open spec fn parse_header_line(line: Seq<u8>) -> Option<(Seq<u8>, Seq<u8>)> {
    let colon = find_byte(line, 0, COLON);
    let name = line.subrange(0, colon);
    let value = trim(line.subrange(colon + 1, line.len() as int));
    if 0 < colon < line.len() && all_token(name) && valid_value(value) {
        Some((name, value))
    } else {
        None
    }
}

/// The header lines from position `pos` to the blank line, added to the
/// entries in `acc`, and the position behind the blank line. A line under a
/// name that is already held is passed over; one under a new name that finds
/// no room is `EntityTooLarge`; a line that is no header, or a missing blank
/// line, is `BadRequest`.
pub open spec fn parse_headers(s: Seq<u8>, pos: int, acc: Seq<(HeaderKey, Seq<u8>)>) -> Result<
    (Seq<(HeaderKey, Seq<u8>)>, int),
    Error,
>
    decreases s.len() - pos,
    when pos >= 0
    via parse_headers_decreases
{
    let end = find_crlf(s, pos);
    if end >= s.len() {
        Err(Error::BadRequest)
    } else if end == pos {
        Ok((acc, pos + 2))
    } else {
        match parse_header_line(s.subrange(pos, end)) {
            None => Err(Error::BadRequest),
            Some((name, value)) => {
                let key = key_of(name);
                if has_key(acc, key) {
                    parse_headers(s, end + 2, acc)
                } else if acc.len() >= MAX_HEADER_COUNT {
                    Err(Error::EntityTooLarge)
                } else {
                    parse_headers(s, end + 2, acc.push((key, value)))
                }
            },
        }
    }
}

#[via_fn]
proof fn parse_headers_decreases(s: Seq<u8>, pos: int, acc: Seq<(HeaderKey, Seq<u8>)>) {
    lemma_find_crlf(s, pos);
}

/// The number that a string of decimal digits denotes.
pub open spec fn decimal_value(digits: Seq<u8>) -> nat
    decreases digits.len(),
{
    if digits.len() == 0 {
        0
    } else {
        decimal_value(digits.drop_last()) * 10 + (digits.last() - 0x30) as nat
    }
}

/// The number that `s` denotes, where `s` is one or more decimal digits and
/// the number fits in a `usize`.
pub open spec fn decimal_usize(s: Seq<u8>) -> Option<usize> {
    if s.len() > 0 && (forall|i: int| 0 <= i < s.len() ==> digit_byte(#[trigger] s[i]))
        && decimal_value(s) <= usize::MAX {
        Some(decimal_value(s) as usize)
    } else {
        None
    }
}

/// The body length that the headers declare.
pub open spec fn content_length(headers: Seq<(HeaderKey, Seq<u8>)>) -> Option<usize> {
    match value_of(headers, HeaderKey::ContentLength) {
        Some(v) => decimal_usize(v),
        None => None,
    }
}

/// The request that a buffer holds. The buffer must hold the request line,
/// all headers and the blank line behind them; what follows the blank line
/// is the part of the body that was captured, and may not be longer than the
/// body is declared to be. A request that declares no length has no body, so
/// nothing may follow its blank line.
pub open spec fn request_spec(s: Seq<u8>) -> Result<RequestModel, Error> {
    let line_end = find_crlf(s, 0);
    if line_end >= s.len() {
        Err(Error::BadRequest)
    } else {
        match parse_request_line(s.subrange(0, line_end)) {
            None => Err(Error::BadRequest),
            Some((method, path, version)) => match parse_headers(s, line_end + 2, Seq::empty()) {
                Err(e) => Err(e),
                Ok((headers, body_start)) => {
                    let body_length = content_length(headers);
                    let captured = s.subrange(body_start, s.len() as int);
                    let declared: int = match body_length {
                        Some(n) => n as int,
                        None => 0,
                    };
                    if captured.len() > declared {
                        Err(Error::BadRequest)
                    } else {
                        Ok(
                            RequestModel {
                                version,
                                method,
                                path,
                                headers,
                                body_length,
                                body_captured: captured,
                            },
                        )
                    }
                },
            },
        }
    }
}

/// The request that a buffer holds, where the buffer is long enough to hold
/// one at all.
pub open spec fn parse_spec(s: Seq<u8>) -> Result<RequestModel, Error> {
    if s.len() < MIN_REQUEST_LEN {
        Err(Error::BadRequest)
    } else {
        request_spec(s)
    }
}

/// Where the byte `b` stands at `at` and nowhere from `from` up to there,
/// `find_byte` from `from` gives `at`; and so it does where `at` is the end
/// of `s`.
pub proof fn lemma_find_byte_is(s: Seq<u8>, from: int, b: u8, at: int)
    requires
        0 <= from <= at <= s.len(),
        forall|i: int| from <= i < at ==> s[i] != b,
        at < s.len() ==> s[at] == b,
    ensures
        find_byte(s, from, b) == at,
    decreases at - from,
{
    if from < at {
        lemma_find_byte_is(s, from + 1, b, at);
    }
}

/// Where the byte `b` stands everywhere from `from` up to `at` and not at
/// `at`, `skip_byte` from `from` gives `at`; and so it does where `at` is the
/// end of `s`.
pub proof fn lemma_skip_byte_is(s: Seq<u8>, from: int, b: u8, at: int)
    requires
        0 <= from <= at <= s.len(),
        forall|i: int| from <= i < at ==> s[i] == b,
        at < s.len() ==> s[at] != b,
    ensures
        skip_byte(s, from, b) == at,
    decreases at - from,
{
    if from < at {
        lemma_skip_byte_is(s, from + 1, b, at);
    }
}

/// Where a line ending stands at `at` and no carriage return from `from` up
/// to there, `find_crlf` from `from` gives `at`.
pub proof fn lemma_find_crlf_is(s: Seq<u8>, from: int, at: int)
    requires
        0 <= from <= at,
        crlf_at(s, at),
        forall|i: int| from <= i < at ==> s[i] != CR,
    ensures
        find_crlf(s, from) == at,
    decreases at - from,
{
    if from < at {
        lemma_find_crlf_is(s, from + 1, at);
    }
}

/// The bytes of the method names.
pub proof fn lemma_method_bytes()
    ensures
        "GET".spec_bytes() =~= seq![0x47u8, 0x45, 0x54],
        "HEAD".spec_bytes() =~= seq![0x48u8, 0x45, 0x41, 0x44],
        "POST".spec_bytes() =~= seq![0x50u8, 0x4f, 0x53, 0x54],
        "OPTIONS".spec_bytes() =~= seq![0x4fu8, 0x50, 0x54, 0x49, 0x4f, 0x4e, 0x53],
        "TRACE".spec_bytes() =~= seq![0x54u8, 0x52, 0x41, 0x43, 0x45],
        "DELETE".spec_bytes() =~= seq![0x44u8, 0x45, 0x4c, 0x45, 0x54, 0x45],
        "PUT".spec_bytes() =~= seq![0x50u8, 0x55, 0x54],
        "PATCH".spec_bytes() =~= seq![0x50u8, 0x41, 0x54, 0x43, 0x48],
        "CONNECT".spec_bytes() =~= seq![0x43u8, 0x4f, 0x4e, 0x4e, 0x45, 0x43, 0x54],
{
    broadcast use vstd::string::is_ascii_spec_bytes;

    reveal_strlit("GET");
    reveal_strlit("HEAD");
    reveal_strlit("POST");
    reveal_strlit("OPTIONS");
    reveal_strlit("TRACE");
    reveal_strlit("DELETE");
    reveal_strlit("PUT");
    reveal_strlit("PATCH");
    reveal_strlit("CONNECT");
    assert(is_ascii("GET"));
    assert(is_ascii("HEAD"));
    assert(is_ascii("POST"));
    assert(is_ascii("OPTIONS"));
    assert(is_ascii("TRACE"));
    assert(is_ascii("DELETE"));
    assert(is_ascii("PUT"));
    assert(is_ascii("PATCH"));
    assert(is_ascii("CONNECT"));
}

/// The bytes of the version names.
pub proof fn lemma_version_bytes()
    ensures
        "HTTP/1.0".spec_bytes() =~= seq![0x48u8, 0x54, 0x54, 0x50, 0x2f, 0x31, 0x2e, 0x30],
        "HTTP/1.1".spec_bytes() =~= seq![0x48u8, 0x54, 0x54, 0x50, 0x2f, 0x31, 0x2e, 0x31],
{
    broadcast use vstd::string::is_ascii_spec_bytes;

    reveal_strlit("HTTP/1.0");
    reveal_strlit("HTTP/1.1");
    assert(is_ascii("HTTP/1.0"));
    assert(is_ascii("HTTP/1.1"));
}

/// A request line has fourteen bytes or more: a method of three at least,
/// a path of one at least, a version of eight, and a space or more on either
/// side of the path.
pub proof fn lemma_request_line_len(line: Seq<u8>)
    requires
        parse_request_line(line).is_some(),
    ensures
        line.len() >= 14,
{
    lemma_method_bytes();
    lemma_version_bytes();
    let a = find_byte(line, 0, SP);
    lemma_find_byte(line, 0, SP);
    let b = skip_byte(line, a, SP);
    lemma_skip_byte(line, a, SP);
    let c = find_byte(line, b, SP);
    lemma_find_byte(line, b, SP);
    let d = skip_byte(line, c, SP);
    lemma_skip_byte(line, c, SP);
    assert(line.subrange(0, a).len() >= 3);
    assert(line.subrange(d, line.len() as int).len() == 8);
}

/// The grammar itself accepts no buffer that is shorter than the shortest
/// request, so to refuse such a buffer unread changes no result.
pub proof fn lemma_short_buffer_holds_no_request(s: Seq<u8>)
    ensures
        parse_spec(s) == request_spec(s),
{
    let line_end = find_crlf(s, 0);
    lemma_find_crlf(s, 0);
    if s.len() < MIN_REQUEST_LEN && line_end < s.len() {
        let line = s.subrange(0, line_end);
        if parse_request_line(line).is_some() {
            lemma_request_line_len(line);
        }
    }
}

/// A buffer without a line ending holds no request, and neither does one
/// whose first line is no request line.
pub proof fn lemma_no_request_line(s: Seq<u8>)
    requires
        (forall|i: int| !crlf_at(s, i)) || parse_request_line(
            s.subrange(0, find_crlf(s, 0)),
        ).is_none(),
    ensures
        request_spec(s) == Err::<RequestModel, Error>(Error::BadRequest),
        parse_spec(s) == Err::<RequestModel, Error>(Error::BadRequest),
{
    lemma_find_crlf(s, 0);
}

/// A string of digits denotes at least what any of its prefixes denotes.
pub proof fn lemma_decimal_prefix(s: Seq<u8>, k: int)
    requires
        0 <= k <= s.len(),
        forall|i: int| 0 <= i < s.len() ==> digit_byte(#[trigger] s[i]),
    ensures
        decimal_value(s.subrange(0, k)) <= decimal_value(s),
    decreases s.len() - k,
{
    if k == s.len() {
        assert(s.subrange(0, k) =~= s);
    } else {
        let longer = s.subrange(0, k + 1);
        assert(longer.drop_last() =~= s.subrange(0, k));
        assert(digit_byte(s[k]));
        assert(longer.last() == s[k]);
        lemma_decimal_prefix(s, k + 1);
    }
}

/// A string of ASCII bytes is valid UTF-8.
pub proof fn lemma_ascii_is_utf8(s: Seq<u8>)
    requires
        forall|i: int| 0 <= i < s.len() ==> #[trigger] s[i] < 128,
    ensures
        valid_utf8(s),
{
    assert(s.subrange(0, 0) =~= Seq::<u8>::empty());
    assert(vstd::utf8::partial_valid_utf8(s, 0));
    assert forall|i: int| 0 <= 0 <= i < s.len() <= s.len() implies #[trigger]
        vstd::utf8::is_leading_byte_width_1(s[i]) by {
        assert(s[i] < 128);
    }
    vstd::utf8::partial_valid_utf8_extend_ascii_block(s, 0, s.len() as int);
    assert(s.subrange(0, s.len() as int) =~= s);
}

} // verus!
