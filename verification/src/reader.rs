//! Reading a request: how a buffer is filled from the transport, what is
//! made of the bytes once the filling has stopped, and how a body that did
//! not fit is read afterwards.
//!
//! The transport itself is not here. Whoever drives a connection performs
//! each read and reports how it went; the decisions are made here.

use crate::error::Error;
use crate::error::TcpError;
use crate::grammar::parse_spec;
use crate::parser::parse_request;
use crate::request::HttpRequest;
use crate::request::RequestModel;
use vstd::prelude::*;

verus! {

/// A request of fewer bytes than this is refused unread.
pub const MIN_READ_LEN: usize = 15;

/// How one attempt to read from the transport went.
#[derive(Debug, Clone, Copy, PartialEq, Eq, Structural)]
pub enum ReadEvent {
    /// The transport delivered this many bytes. None means that the peer
    /// has closed its side.
    Data(usize),
    /// No byte came within the time allowed for one read.
    TimedOut,
    /// The transport failed.
    Failed(TcpError),
}

/// What to do next while a buffer is filled.
#[derive(Debug, Clone, Copy, PartialEq, Eq, Structural)]
pub enum ReadAction {
    /// Read once more, into the buffer from this position on.
    Read { offset: usize },
    /// Stop reading; this many bytes were captured.
    Finish { total: usize },
    /// Give up: the transport failed.
    Fail(TcpError),
}

/// The progress of filling a buffer.
#[derive(Debug, Clone, Copy, PartialEq, Eq, Structural)]
pub struct ReadState {
    /// The size of the buffer.
    pub capacity: usize,
    /// The number of bytes captured so far.
    pub total: usize,
}

impl ReadState {
    /// No more is captured than the buffer holds.
    pub open spec fn wf(self) -> bool {
        self.total <= self.capacity
    }

    /// What the state asks for where no event ends the reading: another
    /// read while there is room, and the end of reading once the buffer is
    /// full.
    pub open spec fn pending_action(self) -> ReadAction {
        if self.total == self.capacity {
            ReadAction::Finish { total: self.total }
        } else {
            ReadAction::Read { offset: self.total }
        }
    }

    /// The state after an event.
    pub open spec fn after(self, event: ReadEvent) -> ReadState {
        match event {
            ReadEvent::Data(count) => ReadState {
                capacity: self.capacity,
                total: if count <= self.capacity - self.total {
                    (self.total + count) as usize
                } else {
                    self.capacity
                },
            },
            _ => self,
        }
    }

    /// What an event asks for: a failure ends the reading with that
    /// failure; a timeout or a closed peer ends it with what was captured;
    /// data is added, and reading goes on while there is room.
    pub open spec fn action_on(self, event: ReadEvent) -> ReadAction {
        match event {
            ReadEvent::Failed(e) => ReadAction::Fail(e),
            ReadEvent::TimedOut => ReadAction::Finish { total: self.total },
            ReadEvent::Data(count) => if count == 0 {
                ReadAction::Finish { total: self.total }
            } else {
                self.after(event).pending_action()
            },
        }
    }

    /// The start of filling a buffer of the given size.
    pub fn begin(capacity: usize) -> (r: (ReadState, ReadAction))
        ensures
            r.0 == (ReadState { capacity, total: 0 }),
            r.0.wf(),
            r.1 == r.0.pending_action(),
    {
        let state = ReadState { capacity, total: 0 };
        (state, state.next_action())
    }

    fn next_action(self) -> (a: ReadAction)
        ensures
            a == self.pending_action(),
    {
        if self.total == self.capacity {
            ReadAction::Finish { total: self.total }
        } else {
            ReadAction::Read { offset: self.total }
        }
    }

    /// Takes in how a read went, and says what to do next. A transport that
    /// claims more bytes than there was room for is taken to have filled
    /// the buffer.
    pub fn step(self, event: ReadEvent) -> (r: (ReadState, ReadAction))
        requires
            self.wf(),
        ensures
            r.0 == self.after(event),
            r.0.wf(),
            r.1 == self.action_on(event),
    {
        match event {
            ReadEvent::Failed(e) => (self, ReadAction::Fail(e)),
            ReadEvent::TimedOut => (self, ReadAction::Finish { total: self.total }),
            ReadEvent::Data(count) => {
                if count == 0 {
                    (self, ReadAction::Finish { total: self.total })
                } else {
                    let total = if count <= self.capacity - self.total {
                        self.total + count
                    } else {
                        self.capacity
                    };
                    let state = ReadState { capacity: self.capacity, total };
                    (state, state.next_action())
                }
            },
        }
    }
}

/// What the captured bytes of a buffer amount to: nothing at all is the end
/// of the stream, too little is no request, and anything else is parsed.
pub open spec fn read_outcome(filled: Seq<u8>) -> Result<RequestModel, Error> {
    if filled.len() == 0 {
        Err(Error::EOF)
    } else if filled.len() < MIN_READ_LEN {
        Err(Error::BadRequest)
    } else {
        parse_spec(filled)
    }
}

/// A request that has been read.
pub struct HttpReader<'c> {
    pub request: HttpRequest<'c>,
}

pub type RequestReader<'c> = HttpReader<'c>;

impl<'c> HttpReader<'c> {
    /// Makes a request of the bytes that were captured.
    pub fn try_new(filled: &'c [u8]) -> (r: Result<HttpReader<'c>, Error>)
        ensures
            match r {
                Ok(reader) => read_outcome(filled@) == Ok::<_, Error>(reader.request@)
                    && reader.request.wf(),
                Err(e) => read_outcome(filled@) == Err::<RequestModel, _>(e),
            },
    {
        if filled.len() == 0 {
            return Err(Error::EOF);
        }
        if filled.len() < MIN_READ_LEN {
            return Err(Error::BadRequest);
        }
        match parse_request(filled) {
            Ok(request) => Ok(HttpReader { request }),
            Err(e) => Err(e),
        }
    }

    /// A reader for the part of the body that did not arrive together with
    /// the headers, where there is such a part.
    pub fn body(&self) -> (r: Option<HttpBodyReader>)
        ensures
            match r {
                Some(b) => self.request@.body_missing() > 0 && b.len_spec()
                    == self.request@.body_missing() && b.read_spec() == 0,
                None => self.request@.body_missing() == 0,
            },
    {
        let captured = self.request.body_captured().len();
        match self.request.body_length() {
            Some(n) if n > captured => Some(HttpBodyReader::new(n - captured)),
            _ => None,
        }
    }
}

/// Reads a body from the transport, piece by piece.
pub struct HttpBodyReader {
    /// The number of bytes to read in all.
    len: usize,
    /// The number of bytes read so far.
    read: usize,
}

/// What to do next while a body is read.
#[derive(Debug, Clone, Copy, PartialEq, Eq, Structural)]
pub enum BodyAction {
    /// The body has been read in full.
    Done,
    /// Read from the transport, no more than this many bytes.
    Read { max: usize },
}

impl HttpBodyReader {
    /// The number of bytes to read in all.
    pub closed spec fn len_spec(&self) -> usize {
        self.len
    }

    /// The number of bytes read so far.
    pub closed spec fn read_spec(&self) -> usize {
        self.read
    }

    /// No more has been read than there is to read.
    pub open spec fn wf(&self) -> bool {
        self.read_spec() <= self.len_spec()
    }

    pub(crate) fn new(len: usize) -> (r: HttpBodyReader)
        ensures
            r.len_spec() == len,
            r.read_spec() == 0,
            r.wf(),
    {
        HttpBodyReader { len, read: 0 }
    }

    /// Whether a read is due, and of how many bytes at most.
    pub fn next(&self) -> (a: BodyAction)
        requires
            self.wf(),
        ensures
            a == if self.read_spec() == self.len_spec() {
                BodyAction::Done
            } else {
                BodyAction::Read { max: (self.len_spec() - self.read_spec()) as usize }
            },
    {
        if self.read == self.len {
            BodyAction::Done
        } else {
            BodyAction::Read { max: self.len - self.read }
        }
    }

    /// Takes in how a read of the body went, and gives the number of bytes
    /// gained. Once the whole body has been read the answer is zero, however
    /// often it is asked for, and no read is due. Before that, a read of no
    /// bytes means that the peer has closed in the middle of the body, which
    /// is `EOF`; a failure of the transport is passed on; more bytes than
    /// were still due are `OutOfRange`.
    pub fn try_read(&mut self, outcome: Result<usize, TcpError>) -> (r: Result<usize, Error>)
        requires
            old(self).wf(),
        ensures
            final(self).wf(),
            final(self).len_spec() == old(self).len_spec(),
            r == body_read_result(old(self).len_spec(), old(self).read_spec(), outcome),
            final(self).read_spec() == match r {
                Ok(n) => (old(self).read_spec() + n) as usize,
                Err(_) => old(self).read_spec(),
            },
    {
        if self.read == self.len {
            return Ok(0);
        }
        match outcome {
            Err(e) => Err(Error::Tcp(e)),
            Ok(count) => {
                if count == 0 {
                    Err(Error::EOF)
                } else if count > self.len - self.read {
                    Err(Error::OutOfRange)
                } else {
                    self.read += count;
                    Ok(count)
                }
            },
        }
    }

    /// The number of bytes to read in all.
    pub fn len(&self) -> (n: usize)
        ensures
            n == self.len_spec(),
    {
        self.len
    }

    /// The number of bytes read so far.
    pub fn read(&self) -> (n: usize)
        ensures
            n == self.read_spec(),
    {
        self.read
    }
}

/// What a read of the body gives, for a body of `len` bytes of which `read`
/// have been read.
pub open spec fn body_read_result(len: usize, read: usize, outcome: Result<usize, TcpError>)
    -> Result<usize, Error> {
    if read == len {
        Ok(0)
    } else {
        match outcome {
            Err(e) => Err(Error::Tcp(e)),
            Ok(count) => if count == 0 {
                Err(Error::EOF)
            } else if count > len - read {
                Err(Error::OutOfRange)
            } else {
                Ok(count)
            },
        }
    }
}

} // verus!
