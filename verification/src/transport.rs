//! What the client asks of the secure transport, and what it hears back.
//!
//! The transport itself, an encrypted and framed session with one peer, is
//! not part of this crate. A handshake hands out [`Request`]s; whoever owns
//! the session performs them and reports each outcome as an [`Event`].

use vstd::prelude::*;
use crate::cfg::{Node, NodeView};
use crate::message::{Message, MessageView, Received, ReceivedView};

verus! {

/// How a transport operation failed, as the transport reports it.
#[derive(Debug, PartialEq, Eq)]
pub enum Failure {
    /// The connection failed, with the system's description.
    Io(String),
    /// The operation did not complete within its timeout.
    Elapsed,
    /// The encrypted session failed, with its description.
    Ecies(String),
    /// The stream ended cleanly before any frame arrived.
    NoResponse,
}

/// What a [`Failure`] holds, as plain values.
pub enum FailureView {
    Io(Seq<char>),
    Elapsed,
    Ecies(Seq<char>),
    NoResponse,
}

impl View for Failure {
    type V = FailureView;

    open spec fn view(&self) -> FailureView {
        match self {
            Failure::Io(detail) => FailureView::Io(detail@),
            Failure::Elapsed => FailureView::Elapsed,
            Failure::Ecies(detail) => FailureView::Ecies(detail@),
            Failure::NoResponse => FailureView::NoResponse,
        }
    }
}

/// A transport failure, attributed to the node it concerns.
#[derive(Debug, PartialEq, Eq)]
pub enum TransportError {
    IOError(String),
    NodeTimeout { node: Node, after: u64 },
    EciesError(String),
    NoResponse { node: Node },
}

/// What a [`TransportError`] holds, as plain values.
pub enum TransportErrorView {
    IOError(Seq<char>),
    NodeTimeout { node: NodeView, after: u64 },
    EciesError(Seq<char>),
    NoResponse { node: NodeView },
}

impl View for TransportError {
    type V = TransportErrorView;

    open spec fn view(&self) -> TransportErrorView {
        match self {
            TransportError::IOError(detail) => TransportErrorView::IOError(detail@),
            TransportError::NodeTimeout { node, after } => TransportErrorView::NodeTimeout {
                node: node@,
                after: *after,
            },
            TransportError::EciesError(detail) => TransportErrorView::EciesError(detail@),
            TransportError::NoResponse { node } => TransportErrorView::NoResponse { node: node@ },
        }
    }
}

/// The error that a failure amounts to for `node`, when each operation was
/// given `timeout` milliseconds.
pub open spec fn attributed(failure: FailureView, node: NodeView, timeout: u64) -> TransportErrorView {
    match failure {
        FailureView::Io(detail) => TransportErrorView::IOError(detail),
        FailureView::Elapsed => TransportErrorView::NodeTimeout { node, after: timeout },
        FailureView::Ecies(detail) => TransportErrorView::EciesError(detail),
        FailureView::NoResponse => TransportErrorView::NoResponse { node },
    }
}

impl TransportError {
    /// Attributes a failure to `node`. An operation that ran out of time
    /// becomes a timeout that carries the configured `timeout`.
    pub fn attribute(failure: Failure, node: &Node, timeout: u64) -> (r: TransportError)
        ensures
            r@ == attributed(failure@, node@, timeout),
    {
        match failure {
            Failure::Io(detail) => TransportError::IOError(detail),
            Failure::Elapsed => TransportError::NodeTimeout { node: node.clone(), after: timeout },
            Failure::Ecies(detail) => TransportError::EciesError(detail),
            Failure::NoResponse => TransportError::NoResponse { node: node.clone() },
        }
    }
}

/// An operation for the transport to perform.
#[derive(Debug, PartialEq, Eq)]
pub enum Request {
    /// Open a session with `node`, within `timeout` milliseconds for the
    /// connection and the cryptographic handshake together.
    Connect { node: Node, timeout: u64 },
    /// Send `message`. With `expect_response`, wait up to `timeout`
    /// milliseconds for one frame in reply.
    Send { message: Message, timeout: u64, expect_response: bool },
    /// Nothing new: the operation in flight goes on.
    Await,
    /// Close the session.
    Close,
    /// Nothing is left to do.
    Finish,
}

/// What a [`Request`] holds, as plain values.
pub enum RequestView {
    Connect { node: NodeView, timeout: u64 },
    Send { message: MessageView, timeout: u64, expect_response: bool },
    Await,
    Close,
    Finish,
}

impl View for Request {
    type V = RequestView;

    open spec fn view(&self) -> RequestView {
        match self {
            Request::Connect { node, timeout } => RequestView::Connect {
                node: node@,
                timeout: *timeout,
            },
            Request::Send { message, timeout, expect_response } => RequestView::Send {
                message: message@,
                timeout: *timeout,
                expect_response: *expect_response,
            },
            Request::Await => RequestView::Await,
            Request::Close => RequestView::Close,
            Request::Finish => RequestView::Finish,
        }
    }
}

/// The outcome of an operation, or a step of it.
#[derive(Debug, PartialEq, Eq)]
pub enum Event {
    /// The session is open.
    Connected,
    /// The message was handed over for transmission.
    Sent,
    /// A frame of `size` bytes arrived, and decodes to `message`.
    Frame { size: usize, message: Received },
    /// The operation failed.
    Failed(Failure),
    /// The session is closed.
    Closed,
}

/// What an [`Event`] holds, as plain values.
pub enum EventView {
    Connected,
    Sent,
    Frame { size: usize, message: ReceivedView },
    Failed(FailureView),
    Closed,
}

impl View for Event {
    type V = EventView;

    open spec fn view(&self) -> EventView {
        match self {
            Event::Connected => EventView::Connected,
            Event::Sent => EventView::Sent,
            Event::Frame { size, message } => EventView::Frame { size: *size, message: message@ },
            Event::Failed(failure) => EventView::Failed(failure@),
            Event::Closed => EventView::Closed,
        }
    }
}

} // verus!
