//! The control of one connection: what a server does after each thing that
//! happens on its socket.
//!
//! A server works on one socket at a time. It sets the socket up, accepts a
//! connection, and then serves request after request until something ends
//! the connection; the socket is then closed in good order or aborted, and
//! the server accepts again. The transport is not here: whoever runs the
//! loop performs each action and reports what came of it.

use crate::config::HttpConfig;
use crate::error::Error;
use crate::request::HttpVersion;
use crate::status::StatusCode;
use crate::writer::HttpResponse;
use crate::writer::HttpWriter;
use crate::writer::page_or_empty;
use crate::writer::status_line;
use vstd::prelude::*;

verus! {

/// Where a connection stands.
#[derive(Debug, Clone, Copy, PartialEq, Eq, Structural)]
pub enum ConnState {
    /// No socket is set up.
    Idle,
    /// The socket waits for a peer.
    Accepting,
    /// A peer is connected and its requests are served.
    Serving,
    /// The connection is being shut down in good order.
    Closing,
    /// The connection is being reset.
    Aborting,
}

/// What happened on the socket.
#[derive(Debug, Clone, Copy, PartialEq, Eq, Structural)]
pub enum ConnEvent {
    /// The server was started.
    Started,
    /// A peer connected.
    Accepted,
    /// The attempt to accept failed.
    AcceptFailed,
    /// A request was read, answered, and the answer flushed.
    Served,
    /// Reading the request failed.
    ReadFailed(Error),
    /// Answering the request, or flushing the answer, failed.
    ResponseFailed(Error),
    /// The socket has been closed or aborted, as was asked.
    Released,
}

/// What to do on the socket.
#[derive(Debug, Clone, Copy, PartialEq, Eq, Structural)]
pub enum ConnAction {
    /// Set up a socket with this timeout, in seconds, and wait for a peer
    /// on this port.
    Listen { port: u16, timeout_secs: u64 },
    /// Read the next request and answer it.
    Serve,
    /// Close the connection in good order, and flush.
    Close,
    /// Answer with this status, in HTTP/1.1, then close the connection in
    /// good order, and flush.
    RejectAndClose(StatusCode),
    /// Reset the connection, and flush.
    Abort,
}

/// The status that a request which could not be read is answered with, for
/// the failures that are answered at all: a request that breaks the grammar
/// is a bad request, and one with too many headers is told so.
pub open spec fn rejection_status(e: Error) -> Option<StatusCode> {
    match e {
        Error::BadRequest => Some(StatusCode::BadRequest),
        Error::EntityTooLarge => Some(StatusCode::HeaderFieldsTooLarge),
        Error::OutOfRange => Some(StatusCode::RangeNotSatisfiable),
        Error::Tcp(_) => None,
        Error::EOF => None,
    }
}

/// The action that sets up a socket as the configuration says. Where no
/// keepalive is configured, the default is the timeout.
pub open spec fn listen_action(config: HttpConfig<'_>) -> ConnAction {
    ConnAction::Listen {
        port: config.port,
        timeout_secs: match config.keepalive {
            Some(k) => k as u64,
            None => crate::config::DEFAULT_KEEPALIVE as u64,
        },
    }
}

/// The state that follows an event, and what to do then.
///
/// A failed accept is tried again. While serving, a request that was served
/// is followed by the next, unless the configuration names no keepalive: the
/// connection is then closed at once. A failure of the transport resets the
/// connection; the end of the stream closes it; a request that could not be
/// read for another reason is answered with an error status and the
/// connection closed; a failure while answering resets the connection. Once
/// the socket is released the server accepts again. An event that cannot
/// happen in a state resets the connection.
pub open spec fn next_step(config: HttpConfig<'_>, state: ConnState, event: ConnEvent) -> (
    ConnState,
    ConnAction,
) {
    match (state, event) {
        (ConnState::Idle, ConnEvent::Started) => (ConnState::Accepting, listen_action(config)),
        (ConnState::Accepting, ConnEvent::Accepted) => (ConnState::Serving, ConnAction::Serve),
        (ConnState::Accepting, ConnEvent::AcceptFailed) => (
            ConnState::Accepting,
            listen_action(config),
        ),
        (ConnState::Serving, ConnEvent::Served) => if config.keepalive.is_some() {
            (ConnState::Serving, ConnAction::Serve)
        } else {
            (ConnState::Closing, ConnAction::Close)
        },
        (ConnState::Serving, ConnEvent::ReadFailed(e)) => match e {
            Error::Tcp(_) => (ConnState::Aborting, ConnAction::Abort),
            Error::EOF => (ConnState::Closing, ConnAction::Close),
            _ => (ConnState::Closing, ConnAction::RejectAndClose(rejection_status(e).unwrap())),
        },
        (ConnState::Serving, ConnEvent::ResponseFailed(_)) => (
            ConnState::Aborting,
            ConnAction::Abort,
        ),
        (ConnState::Closing, ConnEvent::Released) => (ConnState::Accepting, listen_action(config)),
        (ConnState::Aborting, ConnEvent::Released) => (
            ConnState::Accepting,
            listen_action(config),
        ),
        _ => (ConnState::Aborting, ConnAction::Abort),
    }
}

/// Takes in what happened on the socket, and says what to do next.
pub fn step(config: &HttpConfig, state: ConnState, event: ConnEvent) -> (r: (
    ConnState,
    ConnAction,
))
    ensures
        r == next_step(*config, state, event),
{
    match (state, event) {
        (ConnState::Idle, ConnEvent::Started) => (ConnState::Accepting, listen(config)),
        (ConnState::Accepting, ConnEvent::Accepted) => (ConnState::Serving, ConnAction::Serve),
        (ConnState::Accepting, ConnEvent::AcceptFailed) => (ConnState::Accepting, listen(config)),
        (ConnState::Serving, ConnEvent::Served) => if config.keepalive.is_some() {
            (ConnState::Serving, ConnAction::Serve)
        } else {
            (ConnState::Closing, ConnAction::Close)
        },
        (ConnState::Serving, ConnEvent::ReadFailed(e)) => match e {
            Error::Tcp(_) => (ConnState::Aborting, ConnAction::Abort),
            Error::EOF => (ConnState::Closing, ConnAction::Close),
            Error::BadRequest => (
                ConnState::Closing,
                ConnAction::RejectAndClose(StatusCode::BadRequest),
            ),
            Error::EntityTooLarge => (
                ConnState::Closing,
                ConnAction::RejectAndClose(StatusCode::HeaderFieldsTooLarge),
            ),
            Error::OutOfRange => (
                ConnState::Closing,
                ConnAction::RejectAndClose(StatusCode::RangeNotSatisfiable),
            ),
        },
        (ConnState::Serving, ConnEvent::ResponseFailed(_)) => (
            ConnState::Aborting,
            ConnAction::Abort,
        ),
        (ConnState::Closing, ConnEvent::Released) => (ConnState::Accepting, listen(config)),
        (ConnState::Aborting, ConnEvent::Released) => (ConnState::Accepting, listen(config)),
        _ => (ConnState::Aborting, ConnAction::Abort),
    }
}

fn listen(config: &HttpConfig) -> (a: ConnAction)
    ensures
        a == listen_action(*config),
{
    ConnAction::Listen { port: config.port, timeout_secs: config.socket_timeout_secs() }
}

/// Whatever the configuration and whenever it happens, a failure of the
/// transport resets the connection and nothing is sent; the end of the
/// stream closes it in good order; a request that breaks the grammar is
/// answered with 400 and the connection closed in good order, not reset; and
/// one with too many headers is answered with another status than 400.
pub proof fn lemma_failures_while_serving(config: HttpConfig<'_>, e: Error)
    ensures
        e is Tcp ==> next_step(config, ConnState::Serving, ConnEvent::ReadFailed(e)) == (
            ConnState::Aborting,
            ConnAction::Abort,
        ),
        e is EOF ==> next_step(config, ConnState::Serving, ConnEvent::ReadFailed(e)) == (
            ConnState::Closing,
            ConnAction::Close,
        ),
        e is BadRequest ==> next_step(config, ConnState::Serving, ConnEvent::ReadFailed(e)) == (
            ConnState::Closing,
            ConnAction::RejectAndClose(StatusCode::BadRequest),
        ),
        e is EntityTooLarge ==> next_step(config, ConnState::Serving, ConnEvent::ReadFailed(e))
            == (ConnState::Closing, ConnAction::RejectAndClose(StatusCode::HeaderFieldsTooLarge)),
        next_step(config, ConnState::Serving, ConnEvent::ResponseFailed(e)) == (
            ConnState::Aborting,
            ConnAction::Abort,
        ),
{
}

/// Once the socket of a connection that was closed or reset is released,
/// the server listens again, as the configuration says.
pub proof fn lemma_released_socket_listens(config: HttpConfig<'_>, state: ConnState)
    requires
        state is Closing || state is Aborting,
    ensures
        next_step(config, state, ConnEvent::Released) == (ConnState::Accepting, listen_action(config)),
{
}

/// The answer to a request that could not be read: the status alone, but
/// for a bad request, which comes with the configured page for 400 where
/// one is configured. The answer is in HTTP/1.1, whatever the request meant
/// to say.
pub fn rejection(config: &HttpConfig, status: StatusCode) -> (r: HttpResponse)
    ensures
        r@ == status_line(HttpVersion::Http11, status) + page_or_empty(
            if status == StatusCode::BadRequest {
                config.http_400
            } else {
                None
            },
        ),
{
    let writer = HttpWriter::new_http_11();
    let page = match status {
        StatusCode::BadRequest => config.http_400,
        _ => None,
    };
    let r = writer.static_page_or_empty(page, status);
    assert(r@ =~= status_line(HttpVersion::Http11, status) + page_or_empty(page));
    r
}

} // verus!
