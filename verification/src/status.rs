//! Status codes and their reason phrases.

use vstd::prelude::*;
use vstd::string::StringSliceAdditionalSpecFns;

verus! {

/// The status of a response.
#[derive(Debug, Clone, Copy, PartialEq, Eq, Structural)]
pub enum StatusCode {
    Okay,
    Created,
    Accepted,
    NoContent,
    PartialContent,
    MovedPermanently,
    Found,
    NotModified,
    BadRequest,
    Unauthorized,
    Forbidden,
    NotFound,
    MethodNotAllowed,
    PayloadTooLarge,
    RangeNotSatisfiable,
    HeaderFieldsTooLarge,
    InternalServerError,
    NotImplemented,
    ServiceUnavailable,
}

impl StatusCode {
    /// The number of the status.
    pub open spec fn number(self) -> u16 {
        match self {
            StatusCode::Okay => 200,
            StatusCode::Created => 201,
            StatusCode::Accepted => 202,
            StatusCode::NoContent => 204,
            StatusCode::PartialContent => 206,
            StatusCode::MovedPermanently => 301,
            StatusCode::Found => 302,
            StatusCode::NotModified => 304,
            StatusCode::BadRequest => 400,
            StatusCode::Unauthorized => 401,
            StatusCode::Forbidden => 403,
            StatusCode::NotFound => 404,
            StatusCode::MethodNotAllowed => 405,
            StatusCode::PayloadTooLarge => 413,
            StatusCode::RangeNotSatisfiable => 416,
            StatusCode::HeaderFieldsTooLarge => 431,
            StatusCode::InternalServerError => 500,
            StatusCode::NotImplemented => 501,
            StatusCode::ServiceUnavailable => 503,
        }
    }

    /// The number of the status and its reason phrase, as they stand in a
    /// status line.
    pub open spec fn text(self) -> Seq<u8> {
        match self {
            StatusCode::Okay => "200 OK".spec_bytes(),
            StatusCode::Created => "201 Created".spec_bytes(),
            StatusCode::Accepted => "202 Accepted".spec_bytes(),
            StatusCode::NoContent => "204 No Content".spec_bytes(),
            StatusCode::PartialContent => "206 Partial Content".spec_bytes(),
            StatusCode::MovedPermanently => "301 Moved Permanently".spec_bytes(),
            StatusCode::Found => "302 Found".spec_bytes(),
            StatusCode::NotModified => "304 Not Modified".spec_bytes(),
            StatusCode::BadRequest => "400 Bad Request".spec_bytes(),
            StatusCode::Unauthorized => "401 Unauthorized".spec_bytes(),
            StatusCode::Forbidden => "403 Forbidden".spec_bytes(),
            StatusCode::NotFound => "404 Not Found".spec_bytes(),
            StatusCode::MethodNotAllowed => "405 Method Not Allowed".spec_bytes(),
            StatusCode::PayloadTooLarge => "413 Payload Too Large".spec_bytes(),
            StatusCode::RangeNotSatisfiable => "416 Range Not Satisfiable".spec_bytes(),
            StatusCode::HeaderFieldsTooLarge => "431 Request Header Fields Too Large".spec_bytes(),
            StatusCode::InternalServerError => "500 Internal Server Error".spec_bytes(),
            StatusCode::NotImplemented => "501 Not Implemented".spec_bytes(),
            StatusCode::ServiceUnavailable => "503 Service Unavailable".spec_bytes(),
        }
    }

    /// The number of the status.
    pub fn as_u16(&self) -> (n: u16)
        ensures
            n == self.number(),
    {
        match self {
            StatusCode::Okay => 200,
            StatusCode::Created => 201,
            StatusCode::Accepted => 202,
            StatusCode::NoContent => 204,
            StatusCode::PartialContent => 206,
            StatusCode::MovedPermanently => 301,
            StatusCode::Found => 302,
            StatusCode::NotModified => 304,
            StatusCode::BadRequest => 400,
            StatusCode::Unauthorized => 401,
            StatusCode::Forbidden => 403,
            StatusCode::NotFound => 404,
            StatusCode::MethodNotAllowed => 405,
            StatusCode::PayloadTooLarge => 413,
            StatusCode::RangeNotSatisfiable => 416,
            StatusCode::HeaderFieldsTooLarge => 431,
            StatusCode::InternalServerError => 500,
            StatusCode::NotImplemented => 501,
            StatusCode::ServiceUnavailable => 503,
        }
    }

    /// The number of the status and its reason phrase.
    pub fn as_str(&self) -> (s: &'static str)
        ensures
            s.spec_bytes() == self.text(),
    {
        match self {
            StatusCode::Okay => "200 OK",
            StatusCode::Created => "201 Created",
            StatusCode::Accepted => "202 Accepted",
            StatusCode::NoContent => "204 No Content",
            StatusCode::PartialContent => "206 Partial Content",
            StatusCode::MovedPermanently => "301 Moved Permanently",
            StatusCode::Found => "302 Found",
            StatusCode::NotModified => "304 Not Modified",
            StatusCode::BadRequest => "400 Bad Request",
            StatusCode::Unauthorized => "401 Unauthorized",
            StatusCode::Forbidden => "403 Forbidden",
            StatusCode::NotFound => "404 Not Found",
            StatusCode::MethodNotAllowed => "405 Method Not Allowed",
            StatusCode::PayloadTooLarge => "413 Payload Too Large",
            StatusCode::RangeNotSatisfiable => "416 Range Not Satisfiable",
            StatusCode::HeaderFieldsTooLarge => "431 Request Header Fields Too Large",
            StatusCode::InternalServerError => "500 Internal Server Error",
            StatusCode::NotImplemented => "501 Not Implemented",
            StatusCode::ServiceUnavailable => "503 Service Unavailable",
        }
    }
}

} // verus!
