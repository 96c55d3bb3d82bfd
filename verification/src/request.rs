//! The parsed form of one request.

use crate::header_map::has_key;
use crate::header_map::HeaderMap;
use crate::header_map::value_of;
use crate::headers::HeaderKey;
use crate::headers::RequestHeader;
use vstd::prelude::*;
use vstd::string::StringSliceAdditionalSpecFns;

verus! {

/// The version of HTTP that the client speaks.
#[derive(Debug, Clone, Copy, PartialEq, Eq, PartialOrd, Ord, Structural)]
pub enum HttpVersion {
    /// HTTP/1.0
    Http10,
    /// HTTP/1.1
    Http11,
}

impl Default for HttpVersion {
    fn default() -> (v: HttpVersion)
        ensures
            v == HttpVersion::Http11,
    {
        HttpVersion::Http11
    }
}

#[derive(Debug, Clone, Copy, PartialEq, Eq, Structural)]
pub enum HttpMethod {
    Get,
    Head,
    Post,
    Options,
    Trace,
    Delete,
    Put,
    Patch,
    Connect,
}

/// What a request says, as plain values.
pub struct RequestModel {
    pub version: HttpVersion,
    pub method: HttpMethod,
    /// The bytes of the path.
    pub path: Seq<u8>,
    /// The headers, in the order in which they came: each name by its key,
    /// each value by its bytes.
    pub headers: Seq<(HeaderKey, Seq<u8>)>,
    /// The length that `Content-Length` declares, where it declares one.
    pub body_length: Option<usize>,
    /// The bytes that followed the blank line in the same buffer.
    pub body_captured: Seq<u8>,
}

impl RequestModel {
    /// The whole body, where the buffer held all of it.
    pub open spec fn body_inline(self) -> Option<Seq<u8>> {
        if self.body_captured.len() > 0 && self.body_length == Some(
            self.body_captured.len() as usize,
        ) {
            Some(self.body_captured)
        } else {
            None
        }
    }

    /// The number of bytes of the body that the buffer did not hold.
    pub open spec fn body_missing(self) -> nat {
        match self.body_length {
            Some(n) if n > self.body_captured.len() => (n - self.body_captured.len()) as nat,
            _ => 0,
        }
    }
}

/// A request made by a client. Its text borrows from the buffer that it was
/// parsed from.
#[derive(Debug)]
pub struct HttpRequest<'a> {
    pub(crate) version: HttpVersion,
    pub(crate) method: HttpMethod,
    pub(crate) path: &'a str,
    pub(crate) headers: HeaderMap<'a>,
    pub(crate) body_length: Option<usize>,
    pub(crate) body_captured: &'a [u8],
}

impl<'a> View for HttpRequest<'a> {
    type V = RequestModel;

    closed spec fn view(&self) -> RequestModel {
        RequestModel {
            version: self.version,
            method: self.method,
            path: self.path.spec_bytes(),
            headers: self.headers@,
            body_length: self.body_length,
            body_captured: self.body_captured@,
        }
    }
}

impl<'a> HttpRequest<'a> {
    /// The header map is well formed, and the captured part of the body is no
    /// longer than the body is declared to be.
    pub closed spec fn wf(&self) -> bool {
        &&& self.headers.wf()
        &&& self@.body_captured.len() <= match self@.body_length {
            Some(n) => n as int,
            None => 0,
        }
    }

    /// A request of the given parts.
    pub(crate) fn new(
        version: HttpVersion,
        method: HttpMethod,
        path: &'a str,
        headers: HeaderMap<'a>,
        body_length: Option<usize>,
        body_captured: &'a [u8],
    ) -> (r: HttpRequest<'a>)
        requires
            headers.wf(),
            body_captured@.len() <= match body_length {
                Some(n) => n as int,
                None => 0,
            },
        ensures
            r.wf(),
            r@ == (RequestModel {
                version,
                method,
                path: path.spec_bytes(),
                headers: headers@,
                body_length,
                body_captured: body_captured@,
            }),
    {
        HttpRequest { version, method, path, headers, body_length, body_captured }
    }

    /// The version of HTTP that the client speaks.
    pub fn version(&self) -> (v: HttpVersion)
        ensures
            v == self@.version,
    {
        self.version
    }

    /// The path that the client asked for.
    pub fn path(&self) -> (p: &'a str)
        ensures
            p.spec_bytes() == self@.path,
    {
        self.path
    }

    /// The method of the request.
    pub fn method(&self) -> (m: HttpMethod)
        ensures
            m == self@.method,
    {
        self.method
    }

    /// The value of a header, if the request carries it.
    pub fn try_find_header(&self, header: &RequestHeader<'a>) -> (r: Option<&'a str>)
        ensures
            r.is_some() == has_key(self@.headers, header@),
            match r {
                Some(v) => value_of(self@.headers, header@) == Some(v.spec_bytes()),
                None => value_of(self@.headers, header@).is_none(),
            },
    {
        self.headers.get(header)
    }

    /// The length of the body as `Content-Length` declares it.
    pub fn body_length(&self) -> (n: Option<usize>)
        ensures
            n == self@.body_length,
    {
        self.body_length
    }

    /// The body, where all of it arrived together with the headers. A body
    /// of which only a part arrived is not handed out here.
    pub fn body_inline(&self) -> (b: Option<&'a [u8]>)
        ensures
            match b {
                Some(bytes) => self@.body_inline() == Some(bytes@),
                None => self@.body_inline().is_none(),
            },
    {
        match self.body_length {
            Some(n) if self.body_captured.len() > 0 && n == self.body_captured.len() => Some(
                self.body_captured,
            ),
            _ => None,
        }
    }

    /// The bytes of the body that arrived together with the headers, be they
    /// all of it or not.
    pub fn body_captured(&self) -> (b: &'a [u8])
        ensures
            b@ == self@.body_captured,
    {
        self.body_captured
    }
}

} // verus!
