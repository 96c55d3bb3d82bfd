//! Which handler a request goes to, and the check of its credentials.

use crate::config::HttpConfig;
use crate::grammar::COLON;
use crate::grammar::find_byte;
use crate::grammar::header_line;
use crate::grammar::header_lines;
use crate::header_map::value_of;
use crate::headers::HeaderKey;
use crate::headers::RequestHeader;
use crate::parser::bytes_eq;
use crate::request::HttpRequest;
use crate::status::StatusCode;
use crate::writer::HttpResponse;
use crate::writer::HttpWriter;
use crate::writer::page_or_empty;
use crate::writer::pairs_bytes;
use crate::writer::Start;
use crate::writer::status_line;
use vstd::prelude::*;
use vstd::slice::slice_subrange;
use vstd::string::StringSliceAdditionalSpecFns;

verus! {

/// The size of the buffer that credentials are decoded into.
pub const CREDENTIALS_BUF_LEN: usize = 64;

/// What the standard base64 alphabet with padding decodes `input` to, into
/// a buffer of `capacity` bytes; `None` where `input` is no such encoding or
/// the buffer is found too small.
pub uninterp spec fn base64_decode_slice(input: Seq<u8>, capacity: nat) -> Option<Seq<u8>>;

/// `base64::Engine::decode_slice` of `base64::prelude::BASE64_STANDARD`:
/// decodes into the start of `output` and gives the number of bytes written,
/// which is no more than `output` holds; an input that is no valid encoding,
/// or an `output` smaller than the estimate of the decoded length, is an
/// error, given here as `None`.
#[verifier::external_body]
fn decode_base64(input: &[u8], output: &mut [u8; 64]) -> (r: Option<usize>)
    ensures
        match r {
            Some(n) => n <= old(output)@.len() && base64_decode_slice(
                input@,
                old(output)@.len() as nat,
            ) == Some(final(output)@.subrange(0, n as int)),
            None => base64_decode_slice(input@, old(output)@.len() as nat).is_none(),
        },
{
    base64::Engine::decode_slice(&base64::prelude::BASE64_STANDARD, input, output).ok()
}

/// The decoded credentials are a user name, a colon, and a password, and
/// both are the expected ones, byte for byte. The user name ends at the
/// first colon.
pub open spec fn credentials_ok(decoded: Seq<u8>, username: Seq<u8>, password: Seq<u8>) -> bool {
    let colon = find_byte(decoded, 0, COLON);
    &&& colon < decoded.len()
    &&& decoded.subrange(0, colon) == username
    &&& decoded.subrange(colon + 1, decoded.len() as int) == password
}

/// Whether `s` starts with `prefix`.
pub open spec fn has_prefix(s: Seq<u8>, prefix: Seq<u8>) -> bool {
    prefix.len() <= s.len() && s.subrange(0, prefix.len() as int) == prefix
}

/// Whether the value of an `Authorization` header carries the expected
/// credentials: the scheme `Basic`, a space, and the base64 encoding of no
/// more than `CREDENTIALS_BUF_LEN` bytes that are the user name, a colon and
/// the password.
pub open spec fn authorization_ok(value: Seq<u8>, username: Seq<u8>, password: Seq<u8>) -> bool {
    let scheme = "Basic ".spec_bytes();
    has_prefix(value, scheme) && match base64_decode_slice(
        value.subrange(scheme.len() as int, value.len() as int),
        CREDENTIALS_BUF_LEN as nat,
    ) {
        Some(decoded) => credentials_ok(decoded, username, password),
        None => false,
    }
}

/// Whether the request carries the expected credentials.
pub open spec fn request_authorized(
    headers: Seq<(HeaderKey, Seq<u8>)>,
    username: Seq<u8>,
    password: Seq<u8>,
) -> bool {
    match value_of(headers, HeaderKey::Authorization) {
        Some(value) => authorization_ok(value, username, password),
        None => false,
    }
}

/// Checks decoded credentials against the expected user name and password.
pub fn credentials_match(decoded: &[u8], username: &[u8], password: &[u8]) -> (r: bool)
    ensures
        r == credentials_ok(decoded@, username@, password@),
{
    let mut colon: usize = 0;
    while colon < decoded.len() && decoded[colon] != COLON
        invariant
            colon <= decoded.len(),
            find_byte(decoded@, 0, COLON) == find_byte(decoded@, colon as int, COLON),
        decreases decoded.len() - colon,
    {
        colon += 1;
    }
    if colon >= decoded.len() {
        return false;
    }
    let name = slice_subrange(decoded, 0, colon);
    let pass = slice_subrange(decoded, colon + 1, decoded.len());
    bytes_eq(name, username) && bytes_eq(pass, password)
}

/// Checks the value of an `Authorization` header against the expected user
/// name and password.
pub fn check_authorization(value: &str, username: &str, password: &str) -> (r: bool)
    ensures
        r == authorization_ok(value.spec_bytes(), username.spec_bytes(), password.spec_bytes()),
{
    let bytes = value.as_bytes();
    let scheme = "Basic ".as_bytes();
    if scheme.len() > bytes.len() || !bytes_eq(slice_subrange(bytes, 0, scheme.len()), scheme) {
        return false;
    }
    let encoded = slice_subrange(bytes, scheme.len(), bytes.len());
    let mut buf = [0u8; 64];
    match decode_base64(encoded, &mut buf) {
        Some(len) => credentials_match(
            slice_subrange(buf.as_slice(), 0, len),
            username.as_bytes(),
            password.as_bytes(),
        ),
        None => false,
    }
}

/// Checks the credentials that a request carries.
pub fn basic_auth(username: &str, password: &str, request: &HttpRequest) -> (r: bool)
    ensures
        r == request_authorized(request@.headers, username.spec_bytes(), password.spec_bytes()),
{
    match request.try_find_header(&RequestHeader::Authorization) {
        Some(value) => check_authorization(value, username, password),
        None => false,
    }
}

/// Whether a request may be served: always where no credentials are
/// configured, and else where it carries the configured ones.
pub open spec fn may_serve(config: HttpConfig<'_>, headers: Seq<(HeaderKey, Seq<u8>)>) -> bool {
    match config.basic_auth {
        Some((username, password)) => request_authorized(
            headers,
            username.spec_bytes(),
            password.spec_bytes(),
        ),
        None => true,
    }
}

/// Checks a request against the credentials of the configuration.
pub fn global_basic_auth(config: &HttpConfig, request: &HttpRequest) -> (r: bool)
    ensures
        r == may_serve(*config, request@.headers),
{
    match config.basic_auth {
        Some((username, password)) => basic_auth(username, password, request),
        None => true,
    }
}

/// The position of the first route that is exactly the path, or the number
/// of routes where none is.
pub open spec fn first_route(routes: Seq<&str>, path: Seq<u8>) -> int
    decreases routes.len(),
{
    if routes.len() == 0 {
        0
    } else if routes[0].spec_bytes() == path {
        0
    } else {
        1 + first_route(routes.drop_first(), path)
    }
}

/// The first match wins: `first_route` is in range, points at a route that
/// is the path where it points at one, and no route before it is the path.
pub proof fn lemma_first_route(routes: Seq<&str>, path: Seq<u8>)
    ensures
        0 <= first_route(routes, path) <= routes.len(),
        first_route(routes, path) < routes.len() ==> routes[first_route(
            routes,
            path,
        )].spec_bytes() == path,
        forall|j: int|
            0 <= j < first_route(routes, path) ==> (#[trigger] routes[j]).spec_bytes() != path,
    decreases routes.len(),
{
    if routes.len() > 0 && routes[0].spec_bytes() != path {
        let rest = routes.drop_first();
        lemma_first_route(rest, path);
        assert forall|j: int| 0 <= j < first_route(rest, path) + 1 implies (
        #[trigger] routes[j]).spec_bytes() != path by {
            if j > 0 {
                assert(rest[j - 1] == routes[j]);
            }
        }
        if first_route(rest, path) < rest.len() {
            assert(routes[first_route(rest, path) + 1] == rest[first_route(rest, path)]);
        }
    }
}

/// Where a request goes.
#[derive(Debug, Clone, Copy, PartialEq, Eq, Structural)]
pub enum Dispatch {
    /// To the handler of the route at this position of the table.
    Handler(usize),
    /// Nowhere: no route is the path of the request.
    NotFound,
    /// Nowhere: the request lacks the configured credentials.
    Unauthorized,
}

/// Where a request with the given path and headers goes. The credentials
/// are looked at first, and the table only for a request that has them; of
/// the table, the first route that is the path counts.
pub open spec fn dispatch_of(
    config: HttpConfig<'_>,
    routes: Seq<&str>,
    path: Seq<u8>,
    headers: Seq<(HeaderKey, Seq<u8>)>,
) -> Dispatch {
    if !may_serve(config, headers) {
        Dispatch::Unauthorized
    } else if first_route(routes, path) < routes.len() {
        Dispatch::Handler(first_route(routes, path) as usize)
    } else {
        Dispatch::NotFound
    }
}

/// Finds the first route that is exactly the path.
pub fn find_route(routes: &[&str], path: &str) -> (r: Option<usize>)
    ensures
        match r {
            Some(i) => i == first_route(routes@, path.spec_bytes()) && i < routes@.len(),
            None => first_route(routes@, path.spec_bytes()) == routes@.len(),
        },
{
    let mut i: usize = 0;
    assert(routes@.subrange(0, routes@.len() as int) =~= routes@);
    while i < routes.len()
        invariant
            i <= routes.len(),
            first_route(routes@, path.spec_bytes()) == i + first_route(
                routes@.subrange(i as int, routes@.len() as int),
                path.spec_bytes(),
            ),
        decreases routes.len() - i,
    {
        let ghost rest = routes@.subrange(i as int, routes@.len() as int);
        assert(rest[0] == routes@[i as int]);
        assert(rest.drop_first() =~= routes@.subrange(i + 1, routes@.len() as int));
        if bytes_eq(routes[i].as_bytes(), path.as_bytes()) {
            return Some(i);
        }
        i += 1;
    }
    None
}

/// Decides where a request goes.
pub fn dispatch(config: &HttpConfig, routes: &[&str], request: &HttpRequest) -> (r: Dispatch)
    ensures
        r == dispatch_of(*config, routes@, request@.path, request@.headers),
{
    if !global_basic_auth(config, request) {
        return Dispatch::Unauthorized;
    }
    match find_route(routes, request.path()) {
        Some(i) => Dispatch::Handler(i),
        None => Dispatch::NotFound,
    }
}

/// The response to a request that no route serves: the configured page for
/// 404, or no body where none is configured.
pub fn not_found(config: &HttpConfig, writer: HttpWriter<Start>) -> (r: HttpResponse)
    ensures
        r@ == writer@ + status_line(writer.version(), StatusCode::NotFound) + page_or_empty(
            config.http_404,
        ),
{
    writer.static_page_or_empty(config.http_404, StatusCode::NotFound)
}

/// The response to a request that lacks the credentials: a challenge for
/// the scheme `Basic`, and the configured page for 401, or no body where
/// none is configured.
pub fn unauthorized(config: &HttpConfig, writer: HttpWriter<Start>) -> (r: HttpResponse)
    ensures
        r@ == writer@ + status_line(writer.version(), StatusCode::Unauthorized) + header_line(
            "WWW-Authenticate".spec_bytes(),
            "Basic".spec_bytes(),
        ) + page_or_empty(config.http_401),
{
    let extra = [("WWW-Authenticate", "Basic")];
    proof {
        let lines = pairs_bytes(extra@);
        assert(lines.drop_first() =~= Seq::empty());
        assert(header_lines(lines.drop_first()) =~= Seq::empty());
        assert(header_lines(lines) =~= header_line(
            "WWW-Authenticate".spec_bytes(),
            "Basic".spec_bytes(),
        ));
    }
    writer.static_page_or_empty_with(config.http_401, StatusCode::Unauthorized, extra.as_slice())
}

} // verus!
