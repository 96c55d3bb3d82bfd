//! The failures of a connection.

use vstd::prelude::*;
use vstd::std_specs::convert::FromSpecImpl;

verus! {

/// A failure that the transport reported.
#[derive(Debug, Clone, Copy, PartialEq, Eq, Structural)]
pub enum TcpError {
    /// The connection was reset: the peer sent a reset, or the socket timed
    /// out.
    ConnectionReset,
}

#[derive(Debug, Clone, Copy, PartialEq, Eq, Structural)]
pub enum Error {
    /// The transport failed. No error page can be sent.
    Tcp(TcpError),
    /// A range request asked for bytes that are not there.
    OutOfRange,
    /// The peer closed the connection and no more data will come.
    EOF,
    /// The request does not follow the grammar of HTTP.
    BadRequest,
    /// The request carries more headers than the header map can hold.
    EntityTooLarge,
}

impl Error {
    /// The failure is one of the transport, after which nothing more can be
    /// sent.
    pub open spec fn is_transport(self) -> bool {
        self is Tcp
    }
}

impl From<TcpError> for Error {
    fn from(value: TcpError) -> (e: Error) {
        Error::Tcp(value)
    }
}

impl FromSpecImpl<TcpError> for Error {
    open spec fn obeys_from_spec() -> bool {
        true
    }

    open spec fn from_spec(value: TcpError) -> Error {
        Error::Tcp(value)
    }
}

} // verus!
