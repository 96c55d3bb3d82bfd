//! What is written as a request is read as that request.

use crate::error::Error;
use crate::grammar::all_token;
use crate::grammar::COLON;
use crate::grammar::content_length;
use crate::grammar::CR;
use crate::grammar::crlf;
use crate::grammar::crlf_at;
use crate::grammar::find_crlf;
use crate::grammar::header_line;
use crate::grammar::header_lines;
use crate::grammar::header_text;
use crate::grammar::hspace_byte;
use crate::grammar::lemma_find_byte_is;
use crate::grammar::lemma_find_crlf_is;
use crate::grammar::lemma_method_bytes;
use crate::grammar::lemma_version_bytes;
use crate::grammar::lemma_skip_byte_is;
use crate::grammar::LF;
use crate::grammar::line_byte;
use crate::grammar::method_of;
use crate::grammar::method_text;
use crate::grammar::parse_header_line;
use crate::grammar::parse_headers;
use crate::grammar::parse_request_line;
use crate::grammar::parse_spec;
use crate::grammar::SP;
use crate::grammar::token_byte;
use crate::grammar::trim;
use crate::grammar::trim_end;
use crate::grammar::trim_start;
use crate::grammar::valid_value;
use crate::grammar::version_of;
use crate::grammar::version_text;
use crate::header_map::has_key;
use crate::header_map::keys_distinct;
use crate::header_map::MAX_HEADER_COUNT;
use crate::headers::HeaderKey;
use crate::headers::key_of;
use crate::request::HttpMethod;
use crate::request::HttpVersion;
use crate::request::RequestModel;
use vstd::prelude::*;
use vstd::string::StringSliceAdditionalSpecFns;
use vstd::utf8::valid_utf8;

verus! {

/// A request line without its line ending.
pub open spec fn request_line_text(method: HttpMethod, path: Seq<u8>, version: HttpVersion) -> Seq<
    u8,
> {
    method_text(method) + seq![SP] + path + seq![SP] + version_text(version)
}

/// A request without a body as it stands on the wire: the request line, a
/// line for each header, and the blank line.
pub open spec fn serialize_request(
    method: HttpMethod,
    path: Seq<u8>,
    version: HttpVersion,
    headers: Seq<(Seq<u8>, Seq<u8>)>,
) -> Seq<u8> {
    request_line_text(method, path, version) + crlf() + header_lines(headers) + crlf()
}

/// A path that can be written: text of one byte or more, with no space and
/// no carriage return or line feed in it.
pub open spec fn path_ok(path: Seq<u8>) -> bool {
    &&& path.len() > 0
    &&& valid_utf8(path)
    &&& forall|i: int| 0 <= i < path.len() ==> #[trigger] path[i] != SP && line_byte(path[i])
}

/// A header that can be written: the name is a token, the value is text on
/// one line that neither starts nor ends with a space or a tab.
pub open spec fn header_ok(header: (Seq<u8>, Seq<u8>)) -> bool {
    &&& header.0.len() > 0
    &&& all_token(header.0)
    &&& valid_value(header.1)
    &&& header.1.len() > 0 ==> !hspace_byte(header.1.first()) && !hspace_byte(header.1.last())
}

/// Each header with the key of its name in place of the name.
pub open spec fn keyed(headers: Seq<(Seq<u8>, Seq<u8>)>) -> Seq<(HeaderKey, Seq<u8>)> {
    Seq::new(headers.len(), |i: int| (key_of(headers[i].0), headers[i].1))
}

/// Headers that can be written and read again: each can be written, no two
/// names stand for the same key, and there are no more than a request may
/// carry.
pub open spec fn headers_ok(headers: Seq<(Seq<u8>, Seq<u8>)>) -> bool {
    &&& headers.len() <= MAX_HEADER_COUNT
    &&& forall|i: int| 0 <= i < headers.len() ==> header_ok(#[trigger] headers[i])
    &&& keys_distinct(keyed(headers))
}

/// A byte that is no space and ends no line.
pub open spec fn word_byte(c: u8) -> bool {
    c != SP && c != CR && c != LF
}

/// The name of a method is read as that method; it is three bytes or more,
/// none of them a space or part of a line ending.
pub proof fn lemma_method_text(method: HttpMethod)
    ensures
        method_of(method_text(method)) == Some(method),
        method_text(method).len() >= 3,
        forall|i: int|
            0 <= i < method_text(method).len() ==> word_byte(#[trigger] method_text(method)[i]),
{
    lemma_method_bytes();
    let t = method_text(method);
    assert(t[0] != 0x47 ==> t != "GET".spec_bytes());
    assert(method != HttpMethod::Put ==> t != "PUT".spec_bytes()) by {
        if method != HttpMethod::Put && t == "PUT".spec_bytes() {
            assert(t.len() == 3);
            assert(t[1] == 0x55);
        }
    }
    assert(method != HttpMethod::Post ==> t != "POST".spec_bytes()) by {
        if method != HttpMethod::Post && t == "POST".spec_bytes() {
            assert(t.len() == 4);
            assert(t[0] == 0x50);
        }
    }
    assert(method != HttpMethod::Head ==> t != "HEAD".spec_bytes()) by {
        if method != HttpMethod::Head && t == "HEAD".spec_bytes() {
            assert(t.len() == 4);
            assert(t[0] == 0x48);
        }
    }
    assert(method != HttpMethod::Trace ==> t != "TRACE".spec_bytes()) by {
        if method != HttpMethod::Trace && t == "TRACE".spec_bytes() {
            assert(t.len() == 5);
            assert(t[0] == 0x54);
        }
    }
    assert(method != HttpMethod::Patch ==> t != "PATCH".spec_bytes()) by {
        if method != HttpMethod::Patch && t == "PATCH".spec_bytes() {
            assert(t.len() == 5);
            assert(t[0] == 0x50);
        }
    }
    assert(method != HttpMethod::Options ==> t != "OPTIONS".spec_bytes()) by {
        if method != HttpMethod::Options && t == "OPTIONS".spec_bytes() {
            assert(t.len() == 7);
            assert(t[0] == 0x4f);
        }
    }
    assert(method != HttpMethod::Delete ==> t != "DELETE".spec_bytes()) by {
        if method != HttpMethod::Delete && t == "DELETE".spec_bytes() {
            assert(t.len() == 6);
        }
    }
    assert forall|i: int| 0 <= i < t.len() implies word_byte(#[trigger] t[i]) by {
        assert(0x41 <= t[i] <= 0x5a);
    }
}

/// The name of a version is read as that version; it is eight bytes, none
/// of them a space or part of a line ending.
pub proof fn lemma_version_text(version: HttpVersion)
    ensures
        version_of(version_text(version)) == Some(version),
        version_text(version).len() == 8,
        forall|i: int|
            0 <= i < version_text(version).len() ==> word_byte(
                #[trigger] version_text(version)[i],
            ),
{
    lemma_version_bytes();
    let t = version_text(version);
    assert(version == HttpVersion::Http11 ==> t != "HTTP/1.0".spec_bytes()) by {
        if version == HttpVersion::Http11 {
            assert(t[7] == 0x31);
            assert("HTTP/1.0".spec_bytes()[7] == 0x30);
        }
    }
    assert forall|i: int| 0 <= i < t.len() implies word_byte(#[trigger] t[i]) by {
        assert(t[i] >= 0x2e);
    }
}

/// A request line that was written is read as its three parts.
pub proof fn lemma_request_line_round_trip(
    method: HttpMethod,
    path: Seq<u8>,
    version: HttpVersion,
)
    requires
        path_ok(path),
    ensures
        parse_request_line(request_line_text(method, path, version)) == Some(
            (method, path, version),
        ),
        request_line_text(method, path, version).len() >= 14,
        forall|i: int|
            0 <= i < request_line_text(method, path, version).len() ==> line_byte(
                #[trigger] request_line_text(method, path, version)[i],
            ),
{
    lemma_method_text(method);
    lemma_version_text(version);
    let m = method_text(method);
    let v = version_text(version);
    let line = request_line_text(method, path, version);
    let a = m.len() as int;
    let b = a + 1;
    let c = b + path.len();
    let d = c + 1;
    assert(line.len() == d + 8);
    assert forall|i: int| 0 <= i < line.len() implies line_byte(#[trigger] line[i]) by {
        if i < a {
            assert(line[i] == m[i]);
            assert(word_byte(m[i]));
        } else if i == a {
        } else if i < c {
            assert(line[i] == path[i - b]);
        } else if i == c {
        } else {
            assert(line[i] == v[i - d]);
            assert(word_byte(v[i - d]));
        }
    }
    assert forall|i: int| 0 <= i < a implies line[i] != SP by {
        assert(line[i] == m[i]);
        assert(word_byte(m[i]));
    }
    assert(line[a] == SP);
    lemma_find_byte_is(line, 0, SP, a);
    assert(line[b] == path[0]);
    lemma_skip_byte_is(line, a, SP, b);
    assert forall|i: int| b <= i < c implies line[i] != SP by {
        assert(line[i] == path[i - b]);
    }
    assert(line[c] == SP);
    lemma_find_byte_is(line, b, SP, c);
    assert(line[d] == v[0]);
    assert(word_byte(v[0]));
    lemma_skip_byte_is(line, c, SP, d);
    assert(line.subrange(0, a) =~= m);
    assert(line.subrange(b, c) =~= path);
    assert(line.subrange(d, line.len() as int) =~= v);
}

/// A value that was written behind the colon and a space is read as it
/// was.
proof fn lemma_trim_written_value(value: Seq<u8>)
    requires
        value.len() > 0 ==> !hspace_byte(value.first()) && !hspace_byte(value.last()),
    ensures
        trim(seq![SP] + value) == value,
{
    let x = seq![SP] + value;
    if value.len() == 0 {
        assert(x.last() == SP);
        assert(x.drop_last() =~= Seq::<u8>::empty());
        assert(trim_end(x.drop_last()) =~= Seq::<u8>::empty());
        assert(trim_end(x) =~= Seq::<u8>::empty());
        assert(trim_start(Seq::<u8>::empty()) =~= Seq::<u8>::empty());
    } else {
        assert(x.last() == value.last());
        assert(trim_end(x) == x);
        assert(x.first() == SP);
        assert(x.drop_first() =~= value);
        assert(trim_start(value) == value);
        assert(trim_start(x) == value);
    }
}

/// A header line that was written is read as its name and its value.
proof fn lemma_header_line_round_trip(name: Seq<u8>, value: Seq<u8>)
    requires
        header_ok((name, value)),
    ensures
        parse_header_line(header_text(name, value)) == Some((name, value)),
        forall|i: int|
            0 <= i < header_text(name, value).len() ==> #[trigger] header_text(name, value)[i]
                != CR,
{
    let line = header_text(name, value);
    let n = name.len() as int;
    assert forall|i: int| 0 <= i < n implies line[i] != COLON by {
        assert(line[i] == name[i]);
        assert(token_byte(name[i]));
    }
    assert(line[n] == COLON);
    lemma_find_byte_is(line, 0, COLON, n);
    assert(line.subrange(0, n) =~= name);
    assert(line.subrange(n + 1, line.len() as int) =~= seq![SP] + value);
    lemma_trim_written_value(value);
    assert forall|i: int| 0 <= i < line.len() implies (#[trigger] line[i]) != CR by {
        if i < n {
            assert(line[i] == name[i]);
            assert(token_byte(name[i]));
        } else if i >= n + 2 {
            assert(line[i] == value[i - n - 2]);
            assert(line_byte(value[i - n - 2]));
        }
    }
}

/// Header lines that were written, with the blank line behind them, are
/// read as those headers. The lines of the headers from the `k`-th on stand
/// at `pos`; the headers before them have been read.
proof fn lemma_headers_round_trip(s: Seq<u8>, pos: int, headers: Seq<(Seq<u8>, Seq<u8>)>, k: int)
    requires
        0 <= pos <= s.len(),
        0 <= k <= headers.len(),
        headers_ok(headers),
        s.subrange(pos, s.len() as int) == header_lines(
            headers.subrange(k, headers.len() as int),
        ) + crlf(),
    ensures
        parse_headers(s, pos, keyed(headers).subrange(0, k)) == Ok::<_, Error>(
            (keyed(headers), s.len() as int),
        ),
    decreases headers.len() - k,
{
    let tail = s.subrange(pos, s.len() as int);
    let rest = headers.subrange(k, headers.len() as int);
    let acc = keyed(headers).subrange(0, k);
    if k == headers.len() {
        assert(rest.len() == 0);
        assert(header_lines(rest) =~= Seq::<u8>::empty());
        assert(tail =~= crlf());
        assert(tail.len() == 2);
        assert(s[pos] == tail[0]);
        assert(s[pos + 1] == tail[1]);
        assert(crlf_at(s, pos));
        assert(find_crlf(s, pos) == pos);
        assert(acc =~= keyed(headers));
    } else {
        let name = headers[k].0;
        let value = headers[k].1;
        assert(header_ok(headers[k]));
        assert(rest.first() == headers[k]);
        let later = headers.subrange(k + 1, headers.len() as int);
        assert(rest.drop_first() =~= later);
        let line = header_text(name, value);
        let after = header_lines(later) + crlf();
        assert(header_line(name, value) =~= line + crlf());
        assert(tail =~= line + crlf() + after);
        let end = pos + line.len();
        lemma_header_line_round_trip(name, value);
        assert forall|i: int| pos <= i < end implies s[i] != CR by {
            assert(s[i] == tail[i - pos]);
            assert(tail[i - pos] == line[i - pos]);
        }
        assert(s[end] == tail[end - pos]);
        assert(s[end + 1] == tail[end + 1 - pos]);
        assert(crlf_at(s, end));
        lemma_find_crlf_is(s, pos, end);
        assert(s.subrange(pos, end) =~= line);
        assert(tail.len() == line.len() + 2 + after.len());
        assert(tail.subrange(end + 2 - pos, tail.len() as int) =~= after);
        assert(s.subrange(end + 2, s.len() as int) =~= tail.subrange(
            end + 2 - pos,
            tail.len() as int,
        ));
        let key = key_of(name);
        assert(keyed(headers)[k] == (key, value));
        assert(!has_key(acc, key)) by {
            if has_key(acc, key) {
                let i = choose|i: int| 0 <= i < acc.len() && (#[trigger] acc[i]).0 == key;
                assert(acc[i] == keyed(headers)[i]);
                assert(keyed(headers)[i].0 != keyed(headers)[k].0);
            }
        }
        assert(acc.push((key, value)) =~= keyed(headers).subrange(0, k + 1));
        lemma_headers_round_trip(s, end + 2, headers, k + 1);
    }
}

/// What is written as a request is read as that request: the parser gives
/// the method, the path and the version that were written, and each header
/// under the key of its name with the value that was written, in the order
/// of writing.
pub proof fn lemma_parse_serialize(
    method: HttpMethod,
    path: Seq<u8>,
    version: HttpVersion,
    headers: Seq<(Seq<u8>, Seq<u8>)>,
)
    requires
        path_ok(path),
        headers_ok(headers),
    ensures
        parse_spec(serialize_request(method, path, version, headers)) == Ok::<_, Error>(
            RequestModel {
                version,
                method,
                path,
                headers: keyed(headers),
                body_length: content_length(keyed(headers)),
                body_captured: Seq::empty(),
            },
        ),
{
    let line = request_line_text(method, path, version);
    let s = serialize_request(method, path, version, headers);
    let e = line.len() as int;
    lemma_request_line_round_trip(method, path, version);
    assert forall|i: int| 0 <= i < e implies s[i] != CR by {
        assert(s[i] == line[i]);
        assert(line_byte(line[i]));
    }
    assert(s[e] == CR);
    assert(s[e + 1] == LF);
    assert(crlf_at(s, e));
    lemma_find_crlf_is(s, 0, e);
    assert(s.subrange(0, e) =~= line);
    assert(s.subrange(e + 2, s.len() as int) =~= header_lines(headers) + crlf());
    assert(headers.subrange(0, headers.len() as int) =~= headers);
    assert(keyed(headers).subrange(0, 0) =~= Seq::empty());
    lemma_headers_round_trip(s, e + 2, headers, 0);
    assert(s.subrange(s.len() as int, s.len() as int) =~= Seq::<u8>::empty());
}

} // verus!
