//! The response writer. A response is written in phases, each a type of its
//! own: a writer in the `Start` phase can only write the status line, which
//! gives a writer in the `Headers` phase; that one writes headers, and each of
//! its body methods consumes it and gives the finished response. So no header
//! can follow a body, no body can come before the status line, and no
//! response is finished twice.

use crate::config::StaticPage;
use crate::error::Error;
use crate::grammar::COLON;
use crate::grammar::CR;
use crate::grammar::crlf;
use crate::grammar::header_line;
use crate::grammar::header_lines;
use crate::grammar::lemma_header_lines_push;
use crate::grammar::LF;
use crate::grammar::SP;
use crate::grammar::version_text;
use crate::request::HttpRequest;
use crate::request::HttpVersion;
use crate::status::StatusCode;
use crate::utils::decimal_digits;
use crate::utils::USizeStrBuf;
use core::marker::PhantomData;
use vstd::prelude::*;
use vstd::string::StringSliceAdditionalSpecFns;

verus! {

/// The status line of a response.
pub open spec fn status_line(version: HttpVersion, code: StatusCode) -> Seq<u8> {
    version_text(version) + seq![SP] + code.text() + crlf()
}

/// The two headers that announce a body, the blank line, and the body.
pub open spec fn body_section(content_type: Seq<u8>, length: nat, body: Seq<u8>) -> Seq<u8> {
    header_line("Content-Type".spec_bytes(), content_type) + header_line(
        "Content-Length".spec_bytes(),
        decimal_digits(length),
    ) + crlf() + body
}

/// A page with the headers that announce it, or the blank line alone where
/// there is no page.
pub open spec fn page_or_empty(page: Option<StaticPage<'_>>) -> Seq<u8> {
    match page {
        Some(p) => body_section(p.content_type_bytes(), p.body_bytes().len(), p.body_bytes()),
        None => crlf(),
    }
}

/// The bytes of each name and of each value.
pub open spec fn pairs_bytes(pairs: Seq<(&str, &str)>) -> Seq<(Seq<u8>, Seq<u8>)> {
    Seq::new(pairs.len(), |i: int| (pairs[i].0.spec_bytes(), pairs[i].1.spec_bytes()))
}

/// Appends bytes to a buffer.
fn append(out: &mut Vec<u8>, bytes: &[u8])
    ensures
        final(out)@ == old(out)@ + bytes@,
{
    let mut i: usize = 0;
    while i < bytes.len()
        invariant
            i <= bytes.len(),
            out@ == old(out)@ + bytes@.subrange(0, i as int),
        decreases bytes.len() - i,
    {
        out.push(bytes[i]);
        assert(bytes@.subrange(0, i + 1) =~= bytes@.subrange(0, i as int).push(bytes@[i as int]));
        i += 1;
    }
    assert(bytes@.subrange(0, i as int) =~= bytes@);
}

/// Appends a line ending to a buffer.
fn append_crlf(out: &mut Vec<u8>)
    ensures
        final(out)@ == old(out)@ + crlf(),
{
    out.push(CR);
    out.push(LF);
    assert(out@ =~= old(out)@ + crlf());
}

/// Appends a header line to a buffer.
fn append_header(out: &mut Vec<u8>, name: &str, value: &str)
    ensures
        final(out)@ == old(out)@ + header_line(name.spec_bytes(), value.spec_bytes()),
{
    append(out, name.as_bytes());
    out.push(COLON);
    out.push(SP);
    append(out, value.as_bytes());
    append_crlf(out);
    assert(out@ =~= old(out)@ + header_line(name.spec_bytes(), value.spec_bytes()));
}

/// A response that has been written in full. Only the body methods of a
/// writer make one, so a handler that returns one has written a response.
pub struct HttpResponse {
    bytes: Vec<u8>,
}

impl View for HttpResponse {
    type V = Seq<u8>;

    closed spec fn view(&self) -> Seq<u8> {
        self.bytes@
    }
}

impl HttpResponse {
    /// The bytes of the response that have not been handed out before.
    pub fn into_bytes(self) -> (bytes: Vec<u8>)
        ensures
            bytes@ == self@,
    {
        self.bytes
    }
}

/// The phase of a writer that has written nothing yet. It only marks a
/// writer's type.
pub enum Start {
    Start,
}

/// The phase of a writer that has written the status line. It only marks a
/// writer's type.
pub enum Headers {
    Headers,
}

/// A phase of a writer.
pub trait HttpStage {

}

impl HttpStage for Start {

}

impl HttpStage for Headers {

}

/// Writes a response. Its view is what has been written so far.
pub struct HttpWriter<T> {
    out: Vec<u8>,
    version: HttpVersion,
    marker: PhantomData<T>,
}

pub type ResponseWriter = HttpWriter<Start>;

impl<T> View for HttpWriter<T> {
    type V = Seq<u8>;

    closed spec fn view(&self) -> Seq<u8> {
        self.out@
    }
}

impl<T> HttpWriter<T> {
    /// The version that the response is written in.
    pub closed spec fn version(&self) -> HttpVersion {
        self.version
    }
}

impl HttpWriter<Start> {
    /// A writer that answers in the version of the request.
    pub fn new(request: &HttpRequest) -> (w: HttpWriter<Start>)
        ensures
            w@ == Seq::<u8>::empty(),
            w.version() == request@.version,
    {
        HttpWriter { out: Vec::new(), version: request.version(), marker: PhantomData }
    }

    /// A writer that answers in HTTP/1.1, for a response to a request that
    /// could not be read.
    pub fn new_http_11() -> (w: HttpWriter<Start>)
        ensures
            w@ == Seq::<u8>::empty(),
            w.version() == HttpVersion::Http11,
    {
        HttpWriter { out: Vec::new(), version: HttpVersion::Http11, marker: PhantomData }
    }

    /// Starts a response with its status line.
    pub fn start(self, code: StatusCode) -> (w: HttpWriter<Headers>)
        ensures
            w@ == self@ + status_line(self.version(), code),
            w.version() == self.version(),
    {
        let mut out = self.out;
        match self.version {
            HttpVersion::Http10 => append(&mut out, "HTTP/1.0".as_bytes()),
            HttpVersion::Http11 => append(&mut out, "HTTP/1.1".as_bytes()),
        }
        out.push(SP);
        append(&mut out, code.as_str().as_bytes());
        append_crlf(&mut out);
        assert(out@ =~= self@ + status_line(self.version(), code));
        HttpWriter { out, version: self.version, marker: PhantomData }
    }

    /// Writes a whole response that serves a page.
    pub fn static_page(self, page: StaticPage<'_>, code: StatusCode) -> (r: HttpResponse)
        ensures
            r@ == self@ + status_line(self.version(), code) + page_or_empty(Some(page)),
    {
        self.start(code).body_static_page(page)
    }

    /// Writes a whole response that serves a page, or has no body where
    /// there is no page.
    pub fn static_page_or_empty(self, page: Option<StaticPage<'_>>, code: StatusCode) -> (r:
        HttpResponse)
        ensures
            r@ == self@ + status_line(self.version(), code) + page_or_empty(page),
    {
        match page {
            Some(page) => self.start(code).body_static_page(page),
            None => self.start(code).body_empty(),
        }
    }

    /// Writes a whole response with the given headers that serves a page, or
    /// has no body where there is no page.
    pub fn static_page_or_empty_with(
        self,
        page: Option<StaticPage<'_>>,
        code: StatusCode,
        extra: &[(&str, &str)],
    ) -> (r: HttpResponse)
        ensures
            r@ == self@ + status_line(self.version(), code) + header_lines(pairs_bytes(extra@))
                + page_or_empty(page),
    {
        let ghost head = self@ + status_line(self.version(), code);
        let mut w = self.start(code);
        let mut i: usize = 0;
        assert(pairs_bytes(extra@).subrange(0, 0) =~= Seq::empty());
        assert(w@ =~= head + header_lines(pairs_bytes(extra@).subrange(0, 0)));
        while i < extra.len()
            invariant
                i <= extra.len(),
                w@ == head + header_lines(pairs_bytes(extra@).subrange(0, i as int)),
            decreases extra.len() - i,
        {
            let ghost before = pairs_bytes(extra@).subrange(0, i as int);
            let ghost after = pairs_bytes(extra@).subrange(0, i + 1);
            let pair = extra[i];
            w = w.header(pair.0, pair.1);
            proof {
                assert(after =~= before.push((pair.0.spec_bytes(), pair.1.spec_bytes())));
                lemma_header_lines_push(before, (pair.0.spec_bytes(), pair.1.spec_bytes()));
                assert(w@ =~= head + header_lines(after));
            }
            i += 1;
        }
        assert(pairs_bytes(extra@).subrange(0, i as int) =~= pairs_bytes(extra@));
        match page {
            Some(page) => w.body_static_page(page),
            None => w.body_empty(),
        }
    }
}

impl HttpWriter<Headers> {
    /// Writes a header.
    pub fn header(self, name: &str, value: &str) -> (w: HttpWriter<Headers>)
        ensures
            w@ == self@ + header_line(name.spec_bytes(), value.spec_bytes()),
            w.version() == self.version(),
    {
        let mut out = self.out;
        append_header(&mut out, name, value);
        HttpWriter { out, version: self.version, marker: PhantomData }
    }

    /// Ends the response without a body.
    pub fn body_empty(self) -> (r: HttpResponse)
        ensures
            r@ == self@ + crlf(),
    {
        let mut out = self.out;
        append_crlf(&mut out);
        HttpResponse { bytes: out }
    }

    /// Ends the response with a body of text.
    pub fn body_str(self, body: &str, content_type: &str) -> (r: HttpResponse)
        ensures
            r@ == self@ + body_section(
                content_type.spec_bytes(),
                body.spec_bytes().len(),
                body.spec_bytes(),
            ),
    {
        self.body_bytes(body.as_bytes(), content_type)
    }

    /// Ends the response with a page as its body.
    pub fn body_static_page(self, page: StaticPage<'_>) -> (r: HttpResponse)
        ensures
            r@ == self@ + page_or_empty(Some(page)),
    {
        self.body_str(page.body(), page.content_type())
    }

    /// Ends the response with a body: the headers that give its type and its
    /// length, the blank line, and the bytes.
    pub fn body_bytes(self, body: &[u8], content_type: &str) -> (r: HttpResponse)
        ensures
            r@ == self@ + body_section(content_type.spec_bytes(), body@.len(), body@),
    {
        let mut buf = USizeStrBuf::new();
        let mut out = self.out;
        append_header(&mut out, "Content-Type", content_type);
        append_header(&mut out, "Content-Length", buf.stringify(body.len()));
        append_crlf(&mut out);
        append(&mut out, body);
        assert(out@ =~= self@ + body_section(content_type.spec_bytes(), body@.len(), body@));
        HttpResponse { bytes: out }
    }

    /// Announces a body of the given length, which is then written piece by
    /// piece. The length given here is the one that counts.
    pub fn body_chunked(self, length: usize, content_type: &str) -> (c: ChunkedHttpWriter)
        ensures
            c.wf(),
            c.total_len() == length,
            c.written_len() == 0,
            c.pending() == self@ + body_section(
                content_type.spec_bytes(),
                length as nat,
                Seq::empty(),
            ),
    {
        let mut buf = USizeStrBuf::new();
        let mut out = self.out;
        append_header(&mut out, "Content-Type", content_type);
        append_header(&mut out, "Content-Length", buf.stringify(length));
        append_crlf(&mut out);
        assert(out@ =~= self@ + body_section(
            content_type.spec_bytes(),
            length as nat,
            Seq::empty(),
        ));
        ChunkedHttpWriter { total: length, written: 0, pending: out }
    }
}

/// Writes a body of a length that was declared beforehand, piece by piece.
pub struct ChunkedHttpWriter {
    total: usize,
    written: usize,
    pending: Vec<u8>,
}

impl ChunkedHttpWriter {
    /// The declared length of the body.
    pub closed spec fn total_len(&self) -> usize {
        self.total
    }

    /// The number of bytes of the body written so far.
    pub closed spec fn written_len(&self) -> usize {
        self.written
    }

    /// The bytes that were written and have not been handed out yet.
    pub closed spec fn pending(&self) -> Seq<u8> {
        self.pending@
    }

    /// No more has been written than was declared.
    pub open spec fn wf(&self) -> bool {
        self.written_len() <= self.total_len()
    }

    /// Writes a piece of the body. Once the whole body has been written, a
    /// call writes nothing and hands back the finished response, and so does
    /// every later call. A piece that would take the body beyond its declared
    /// length is refused as `OutOfRange`, and nothing of it is written.
    pub fn write_chunk(&mut self, chunk: &[u8]) -> (r: Result<Option<HttpResponse>, Error>)
        requires
            old(self).wf(),
        ensures
            final(self).wf(),
            final(self).total_len() == old(self).total_len(),
            old(self).written_len() == old(self).total_len() ==> {
                &&& r matches Ok(Some(response)) && response@ == old(self).pending()
                &&& final(self).pending() == Seq::<u8>::empty()
                &&& final(self).written_len() == old(self).written_len()
            },
            old(self).written_len() < old(self).total_len() && chunk@.len() <= old(
                self,
            ).total_len() - old(self).written_len() ==> {
                &&& r matches Ok(None)
                &&& final(self).pending() == old(self).pending() + chunk@
                &&& final(self).written_len() == old(self).written_len() + chunk@.len()
            },
            chunk@.len() > old(self).total_len() - old(self).written_len() > 0 ==> {
                &&& r matches Err(Error::OutOfRange)
                &&& final(self).pending() == old(self).pending()
                &&& final(self).written_len() == old(self).written_len()
            },
    {
        if self.written == self.total {
            let mut bytes: Vec<u8> = Vec::new();
            core::mem::swap(&mut self.pending, &mut bytes);
            return Ok(Some(HttpResponse { bytes }));
        }
        if chunk.len() > self.total - self.written {
            return Err(Error::OutOfRange);
        }
        append(&mut self.pending, chunk);
        self.written += chunk.len();
        Ok(None)
    }

    /// Writes a piece of the body that is text.
    pub fn write_chunk_str(&mut self, chunk: &str) -> (r: Result<Option<HttpResponse>, Error>)
        requires
            old(self).wf(),
        ensures
            final(self).wf(),
            final(self).total_len() == old(self).total_len(),
            old(self).written_len() == old(self).total_len() ==> {
                &&& r matches Ok(Some(response)) && response@ == old(self).pending()
                &&& final(self).pending() == Seq::<u8>::empty()
                &&& final(self).written_len() == old(self).written_len()
            },
            old(self).written_len() < old(self).total_len() && chunk.spec_bytes().len() <= old(
                self,
            ).total_len() - old(self).written_len() ==> {
                &&& r matches Ok(None)
                &&& final(self).pending() == old(self).pending() + chunk.spec_bytes()
                &&& final(self).written_len() == old(self).written_len()
                    + chunk.spec_bytes().len()
            },
            chunk.spec_bytes().len() > old(self).total_len() - old(self).written_len() > 0 ==> {
                &&& r matches Err(Error::OutOfRange)
                &&& final(self).pending() == old(self).pending()
                &&& final(self).written_len() == old(self).written_len()
            },
    {
        self.write_chunk(chunk.as_bytes())
    }

    /// Hands out the bytes that are waiting to be sent.
    pub fn take_pending(&mut self) -> (bytes: Vec<u8>)
        ensures
            bytes@ == old(self).pending(),
            final(self).pending() == Seq::<u8>::empty(),
            final(self).total_len() == old(self).total_len(),
            final(self).written_len() == old(self).written_len(),
    {
        let mut bytes: Vec<u8> = Vec::new();
        core::mem::swap(&mut self.pending, &mut bytes);
        bytes
    }

    /// The declared length of the body.
    pub fn total(&self) -> (n: usize)
        ensures
            n == self.total_len(),
    {
        self.total
    }

    /// The number of bytes of the body written so far.
    pub fn written(&self) -> (n: usize)
        ensures
            n == self.written_len(),
    {
        self.written
    }
}

} // verus!
