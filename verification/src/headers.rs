//! The registry of request header names.

use vstd::prelude::*;
use vstd::std_specs::cmp::PartialEqSpecImpl;
use vstd::string::StringSliceAdditionalSpecFns;

verus! {

/// The lower-case form of an ASCII letter; every other byte is left alone.
pub open spec fn ascii_lower(b: u8) -> u8 {
    if 0x41 <= b <= 0x5a {
        (b + 0x20) as u8
    } else {
        b
    }
}

/// A byte string with each ASCII letter in lower case.
pub open spec fn ascii_fold(s: Seq<u8>) -> Seq<u8> {
    Seq::new(s.len(), |i: int| ascii_lower(s[i]))
}

/// Two byte strings are equal up to the case of their ASCII letters.
pub open spec fn caseless_eq(a: Seq<u8>, b: Seq<u8>) -> bool {
    ascii_fold(a) == ascii_fold(b)
}

/// Compares two strings with `unicase::UniCase::ascii`, whose equality is
/// `str::eq_ignore_ascii_case`: the byte lengths agree, and so does each pair
/// of bytes once ASCII letters are folded to lower case.
#[verifier::external_body]
pub(crate) fn caseless_eq_str(a: &str, b: &str) -> (r: bool)
    ensures
        r == caseless_eq(a.spec_bytes(), b.spec_bytes()),
{
    unicase::UniCase::ascii(a) == unicase::UniCase::ascii(b)
}

/// The name of a request header: one of the well-known names, or any other
/// text as it was received.
#[derive(Debug, Clone, Copy)]
pub enum RequestHeader<'a> {
    Host,
    Accept,
    AcceptEncoding,
    Authorization,
    Connection,
    ContentEncoding,
    ContentLength,
    ContentType,
    Cookie,
    Date,
    Range,
    Other(&'a str),
}

/// What a header name stands for: a well-known name, or the bytes of any
/// other name with its ASCII letters in lower case. Two names denote the same
/// header exactly when they stand for the same key.
pub enum HeaderKey {
    Host,
    Accept,
    AcceptEncoding,
    Authorization,
    Connection,
    ContentEncoding,
    ContentLength,
    ContentType,
    Cookie,
    Date,
    Range,
    Other(Seq<u8>),
}

impl<'a> View for RequestHeader<'a> {
    type V = HeaderKey;

    open spec fn view(&self) -> HeaderKey {
        match *self {
            RequestHeader::Host => HeaderKey::Host,
            RequestHeader::Accept => HeaderKey::Accept,
            RequestHeader::AcceptEncoding => HeaderKey::AcceptEncoding,
            RequestHeader::Authorization => HeaderKey::Authorization,
            RequestHeader::Connection => HeaderKey::Connection,
            RequestHeader::ContentEncoding => HeaderKey::ContentEncoding,
            RequestHeader::ContentLength => HeaderKey::ContentLength,
            RequestHeader::ContentType => HeaderKey::ContentType,
            RequestHeader::Cookie => HeaderKey::Cookie,
            RequestHeader::Date => HeaderKey::Date,
            RequestHeader::Range => HeaderKey::Range,
            RequestHeader::Other(s) => HeaderKey::Other(ascii_fold(s.spec_bytes())),
        }
    }
}

/// The key that a header name stands for. Names are matched without regard
/// to the case of ASCII letters; a byte that is not ASCII matches only itself.
pub open spec fn key_of(name: Seq<u8>) -> HeaderKey {
    if caseless_eq(name, "Host".spec_bytes()) {
        HeaderKey::Host
    } else if caseless_eq(name, "Accept".spec_bytes()) {
        HeaderKey::Accept
    } else if caseless_eq(name, "Accept-Encoding".spec_bytes()) {
        HeaderKey::AcceptEncoding
    } else if caseless_eq(name, "Authorization".spec_bytes()) {
        HeaderKey::Authorization
    } else if caseless_eq(name, "Connection".spec_bytes()) {
        HeaderKey::Connection
    } else if caseless_eq(name, "Content-Encoding".spec_bytes()) {
        HeaderKey::ContentEncoding
    } else if caseless_eq(name, "Content-Length".spec_bytes()) {
        HeaderKey::ContentLength
    } else if caseless_eq(name, "Content-Type".spec_bytes()) {
        HeaderKey::ContentType
    } else if caseless_eq(name, "Cookie".spec_bytes()) {
        HeaderKey::Cookie
    } else if caseless_eq(name, "Date".spec_bytes()) {
        HeaderKey::Date
    } else if caseless_eq(name, "Range".spec_bytes()) {
        HeaderKey::Range
    } else {
        HeaderKey::Other(ascii_fold(name))
    }
}

/// Names that differ only in the case of their ASCII letters stand for the
/// same key.
pub proof fn lemma_key_ignores_case(a: Seq<u8>, b: Seq<u8>)
    requires
        caseless_eq(a, b),
    ensures
        key_of(a) == key_of(b),
{
}

impl<'a> RequestHeader<'a> {
    /// Classifies a header name: the well-known name that it matches, or
    /// `Other` with the text as it came.
    pub fn from_str(s: &'a str) -> (r: RequestHeader<'a>)
        ensures
            r@ == key_of(s.spec_bytes()),
            r matches RequestHeader::Other(t) ==> t@ == s@,
    {
        if caseless_eq_str(s, "Host") {
            RequestHeader::Host
        } else if caseless_eq_str(s, "Accept") {
            RequestHeader::Accept
        } else if caseless_eq_str(s, "Accept-Encoding") {
            RequestHeader::AcceptEncoding
        } else if caseless_eq_str(s, "Authorization") {
            RequestHeader::Authorization
        } else if caseless_eq_str(s, "Connection") {
            RequestHeader::Connection
        } else if caseless_eq_str(s, "Content-Encoding") {
            RequestHeader::ContentEncoding
        } else if caseless_eq_str(s, "Content-Length") {
            RequestHeader::ContentLength
        } else if caseless_eq_str(s, "Content-Type") {
            RequestHeader::ContentType
        } else if caseless_eq_str(s, "Cookie") {
            RequestHeader::Cookie
        } else if caseless_eq_str(s, "Date") {
            RequestHeader::Date
        } else if caseless_eq_str(s, "Range") {
            RequestHeader::Range
        } else {
            RequestHeader::Other(s)
        }
    }
}

impl<'a> PartialEq for RequestHeader<'a> {
    fn eq(&self, other: &RequestHeader<'a>) -> (r: bool) {
        match (*self, *other) {
            (RequestHeader::Host, RequestHeader::Host) => true,
            (RequestHeader::Accept, RequestHeader::Accept) => true,
            (RequestHeader::AcceptEncoding, RequestHeader::AcceptEncoding) => true,
            (RequestHeader::Authorization, RequestHeader::Authorization) => true,
            (RequestHeader::Connection, RequestHeader::Connection) => true,
            (RequestHeader::ContentEncoding, RequestHeader::ContentEncoding) => true,
            (RequestHeader::ContentLength, RequestHeader::ContentLength) => true,
            (RequestHeader::ContentType, RequestHeader::ContentType) => true,
            (RequestHeader::Cookie, RequestHeader::Cookie) => true,
            (RequestHeader::Date, RequestHeader::Date) => true,
            (RequestHeader::Range, RequestHeader::Range) => true,
            (RequestHeader::Other(a), RequestHeader::Other(b)) => caseless_eq_str(a, b),
            _ => false,
        }
    }
}

impl<'a> PartialEqSpecImpl for RequestHeader<'a> {
    open spec fn obeys_eq_spec() -> bool {
        true
    }

    open spec fn eq_spec(&self, other: &RequestHeader<'a>) -> bool {
        self@ == other@
    }
}

impl<'a> Eq for RequestHeader<'a> {}

} // verus!
