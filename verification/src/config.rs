//! What a server is set up with.

use vstd::prelude::*;
use vstd::string::StringSliceAdditionalSpecFns;

verus! {

/// A page that is served as it stands, without compression.
#[derive(Debug, Clone, Copy)]
pub struct StaticPage<'a> {
    pub(crate) content_type: &'a str,
    pub(crate) body: &'a str,
}

impl<'a> StaticPage<'a> {
    /// The content type that the page is served under.
    pub closed spec fn content_type_bytes(&self) -> Seq<u8> {
        self.content_type.spec_bytes()
    }

    /// The body of the page.
    pub closed spec fn body_bytes(&self) -> Seq<u8> {
        self.body.spec_bytes()
    }

    /// A page of HTML.
    pub fn html(body: &'a str) -> (p: StaticPage<'a>)
        ensures
            p.content_type_bytes() == "text/html; charset=UTF-8".spec_bytes(),
            p.body_bytes() == body.spec_bytes(),
    {
        StaticPage { content_type: "text/html; charset=UTF-8", body }
    }

    /// A page of plain text.
    pub fn text(body: &'a str) -> (p: StaticPage<'a>)
        ensures
            p.content_type_bytes() == "text/plain; charset=UTF-8".spec_bytes(),
            p.body_bytes() == body.spec_bytes(),
    {
        StaticPage { content_type: "text/plain; charset=UTF-8", body }
    }

    /// A page of JSON.
    pub fn json(body: &'a str) -> (p: StaticPage<'a>)
        ensures
            p.content_type_bytes() == "text/json; charset=UTF-8".spec_bytes(),
            p.body_bytes() == body.spec_bytes(),
    {
        StaticPage { content_type: "text/json; charset=UTF-8", body }
    }

    /// The content type that the page is served under.
    pub fn content_type(&self) -> (s: &'a str)
        ensures
            s.spec_bytes() == self.content_type_bytes(),
    {
        self.content_type
    }

    /// The body of the page.
    pub fn body(&self) -> (s: &'a str)
        ensures
            s.spec_bytes() == self.body_bytes(),
    {
        self.body
    }
}

/// The keepalive, in seconds, of a configuration that names none.
pub const DEFAULT_KEEPALIVE: u16 = 5;

#[derive(Debug, Clone, Copy)]
pub struct HttpConfig<'a> {
    /// The TCP port to listen on. By default 80.
    pub port: u16,
    /// The number of seconds that a connection may stay open without any
    /// data passing. With `None` a connection is closed as soon as it has
    /// been served. By default 5 seconds.
    pub keepalive: Option<u16>,
    /// The user name and the password that every request must carry. By
    /// default none.
    pub basic_auth: Option<(&'a str, &'a str)>,
    /// The page sent with a 400 Bad Request. By default none.
    pub http_400: Option<StaticPage<'a>>,
    /// The page sent with a 401 Unauthorized. By default none.
    pub http_401: Option<StaticPage<'a>>,
    /// The page sent with a 404 Not Found. By default none.
    pub http_404: Option<StaticPage<'a>>,
    /// The page sent with a 500 Internal Server Error. By default none.
    pub http_500: Option<StaticPage<'a>>,
}

impl Default for HttpConfig<'static> {
    fn default() -> (c: HttpConfig<'static>)
        ensures
            c.port == 80,
            c.keepalive == Some(DEFAULT_KEEPALIVE),
            c.basic_auth.is_none(),
            c.http_400.is_none(),
            c.http_401.is_none(),
            c.http_404.is_none(),
            c.http_500.is_none(),
    {
        HttpConfig {
            port: 80,
            keepalive: Some(DEFAULT_KEEPALIVE),
            basic_auth: None,
            http_400: None,
            http_401: None,
            http_404: None,
            http_500: None,
        }
    }
}

impl<'a> HttpConfig<'a> {
    /// The timeout, in seconds, that a socket is set up with: the configured
    /// keepalive, or the default where none is configured.
    pub fn socket_timeout_secs(&self) -> (secs: u64)
        ensures
            secs == match self.keepalive {
                Some(k) => k as u64,
                None => DEFAULT_KEEPALIVE as u64,
            },
    {
        match self.keepalive {
            Some(k) => k as u64,
            None => DEFAULT_KEEPALIVE as u64,
        }
    }
}

} // verus!
