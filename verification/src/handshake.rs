//! The handshake with one node, as a state machine.
//!
//! A handshake connects, greets, awaits the peer's greeting and tears the
//! session down again. It performs no operation itself: [`Handshake::start`]
//! and [`Handshake::step`] hand out the next [`Request`], and `step` takes
//! the [`Event`] that reports how the last one went.

use vstd::prelude::*;
use crate::capability::{capabilities_view, Capability};
use crate::cfg::{Node, NodeView};
use crate::client::{
    handle_handshake_response, response_meaning, HandshakeError, HandshakeErrorView, Peer,
    PeerView, MAX_PAYLOAD_SIZE,
};
use crate::message::{Hello, HelloView, Message, MessageView, CLIENT_QUITTING};
use crate::message::ReceivedView;
use crate::transport::{
    attributed, Event, EventView, FailureView, Request, RequestView, TransportError,
    TransportErrorView,
};

verus! {

/// How far the release of an open session has come.
#[derive(Debug, Clone, Copy, PartialEq, Eq, Structural)]
pub enum Teardown {
    /// The disconnect notification is on its way.
    Notifying,
    /// The session is being closed.
    Closing,
    /// Nothing is left to release.
    Finished,
}

/// Where a handshake stands.
#[derive(Debug, PartialEq, Eq)]
pub enum State {
    /// The session is being opened.
    Connecting,
    /// The greeting was handed to the transport.
    GreetingSent,
    /// The greeting is out, the peer's answer is awaited.
    AwaitingGreeting,
    /// The peer greeted back and announced `capabilities`.
    Negotiated { capabilities: Vec<Capability>, teardown: Teardown },
    /// The handshake failed with `error`.
    Failed { error: HandshakeError, teardown: Teardown },
}

/// What a [`State`] holds, as plain values.
pub enum StateView {
    Connecting,
    GreetingSent,
    AwaitingGreeting,
    Negotiated { capabilities: Seq<(Seq<char>, nat)>, teardown: Teardown },
    Failed { error: HandshakeErrorView, teardown: Teardown },
}

impl View for State {
    type V = StateView;

    open spec fn view(&self) -> StateView {
        match self {
            State::Connecting => StateView::Connecting,
            State::GreetingSent => StateView::GreetingSent,
            State::AwaitingGreeting => StateView::AwaitingGreeting,
            State::Negotiated { capabilities, teardown } => StateView::Negotiated {
                capabilities: capabilities_view(capabilities@),
                teardown: *teardown,
            },
            State::Failed { error, teardown } => StateView::Failed {
                error: error@,
                teardown: *teardown,
            },
        }
    }
}

impl StateView {
    /// The handshake is over: the state does not change any more.
    pub open spec fn finished(self) -> bool {
        match self {
            StateView::Negotiated { teardown, .. } => teardown == Teardown::Finished,
            StateView::Failed { teardown, .. } => teardown == Teardown::Finished,
            _ => false,
        }
    }

    /// A session is open and has yet to be released.
    pub open spec fn session_open(self) -> bool {
        match self {
            StateView::Connecting => false,
            StateView::GreetingSent => true,
            StateView::AwaitingGreeting => true,
            StateView::Negotiated { teardown, .. } => teardown != Teardown::Finished,
            StateView::Failed { teardown, .. } => teardown != Teardown::Finished,
        }
    }
}

/// The handshake with one node: the node, the timeout of each operation in
/// milliseconds, the greeting to send, and the state reached.
#[derive(Debug, PartialEq, Eq)]
pub struct Handshake {
    node: Node,
    timeout: u64,
    greeting: Hello,
    state: State,
}

/// What a [`Handshake`] holds, as plain values.
pub struct HandshakeView {
    pub node: NodeView,
    pub timeout: u64,
    pub greeting: HelloView,
    pub state: StateView,
}

impl View for Handshake {
    type V = HandshakeView;

    closed spec fn view(&self) -> HandshakeView {
        HandshakeView {
            node: self.node@,
            timeout: self.timeout,
            greeting: self.greeting@,
            state: self.state@,
        }
    }
}

/// The state that a failure of the handshake leads to, and the request that
/// goes with it: an open session is closed first.
pub open spec fn failing(error: HandshakeErrorView, session_open: bool) -> (StateView, RequestView) {
    if session_open {
        (StateView::Failed { error, teardown: Teardown::Closing }, RequestView::Close)
    } else {
        (StateView::Failed { error, teardown: Teardown::Finished }, RequestView::Finish)
    }
}

/// The transition of the handshake `h` on the event `e`: the next state and
/// the next request.
///
/// Once the greeting is handed over, a frame counts as the peer's answer
/// whether or not the transport reported the greeting as sent before. An
/// event that the state does not wait for changes nothing, and the
/// operation in flight goes on. Once finished, the handshake stays as it is.
pub open spec fn transition(h: HandshakeView, e: EventView) -> (StateView, RequestView) {
    match h.state {
        StateView::Connecting => match e {
            EventView::Connected => (
                StateView::GreetingSent,
                RequestView::Send {
                    message: MessageView::Hello(h.greeting),
                    timeout: h.timeout,
                    expect_response: true,
                },
            ),
            EventView::Failed(failure) => failing(
                HandshakeErrorView::TransportError(attributed(failure, h.node, h.timeout)),
                false,
            ),
            _ => (h.state, RequestView::Await),
        },
        StateView::GreetingSent | StateView::AwaitingGreeting => match e {
            EventView::Sent => (StateView::AwaitingGreeting, RequestView::Await),
            EventView::Frame { size, message } => match response_meaning(size, message) {
                Ok(hello) => (
                    StateView::Negotiated {
                        capabilities: hello.capabilities,
                        teardown: Teardown::Notifying,
                    },
                    RequestView::Send {
                        message: MessageView::Disconnect(CLIENT_QUITTING),
                        timeout: h.timeout,
                        expect_response: false,
                    },
                ),
                Err(error) => failing(error, true),
            },
            EventView::Failed(failure) => failing(
                HandshakeErrorView::TransportError(attributed(failure, h.node, h.timeout)),
                true,
            ),
            _ => (h.state, RequestView::Await),
        },
        StateView::Negotiated { capabilities, teardown } => match teardown {
            Teardown::Notifying => match e {
                EventView::Sent | EventView::Failed(_) => (
                    StateView::Negotiated { capabilities, teardown: Teardown::Closing },
                    RequestView::Close,
                ),
                _ => (h.state, RequestView::Await),
            },
            Teardown::Closing => match e {
                EventView::Closed | EventView::Failed(_) => (
                    StateView::Negotiated { capabilities, teardown: Teardown::Finished },
                    RequestView::Finish,
                ),
                _ => (h.state, RequestView::Await),
            },
            Teardown::Finished => (h.state, RequestView::Finish),
        },
        StateView::Failed { error, teardown } => match teardown {
            Teardown::Finished => (h.state, RequestView::Finish),
            _ => match e {
                EventView::Closed | EventView::Failed(_) => (
                    StateView::Failed { error, teardown: Teardown::Finished },
                    RequestView::Finish,
                ),
                _ => (h.state, RequestView::Await),
            },
        },
    }
}

/// How a handshake ended, once it is finished: with the peer and what it
/// announced, or with the error.
pub open spec fn outcome_of(h: HandshakeView) -> Option<Result<PeerView, HandshakeErrorView>> {
    match h.state {
        StateView::Negotiated { capabilities, teardown: Teardown::Finished } => Some(
            Ok(PeerView { node: h.node, capabilities }),
        ),
        StateView::Failed { error, teardown: Teardown::Finished } => Some(Err(error)),
        _ => None,
    }
}

/// The view of a reported outcome.
pub open spec fn outcome_view(r: Option<Result<Peer, HandshakeError>>) -> Option<
    Result<PeerView, HandshakeErrorView>,
> {
    match r {
        Some(Ok(peer)) => Some(Ok(peer@)),
        Some(Err(error)) => Some(Err(error@)),
        None => None,
    }
}

/// Ends a handshake with `error`, closing the session first if one is open.
fn fail(error: HandshakeError, session_open: bool) -> (r: (State, Request))
    ensures
        (r.0@, r.1@) == failing(error@, session_open),
{
    if session_open {
        (State::Failed { error, teardown: Teardown::Closing }, Request::Close)
    } else {
        (State::Failed { error, teardown: Teardown::Finished }, Request::Finish)
    }
}

impl Handshake {
    /// A handshake with `node` that has yet to connect, and the request to
    /// do so within `timeout` milliseconds.
    pub fn start(node: Node, timeout: u64, greeting: Hello) -> (r: (Handshake, Request))
        ensures
            r.0@ == (HandshakeView {
                node: node@,
                timeout,
                greeting: greeting@,
                state: StateView::Connecting,
            }),
            r.1@ == (RequestView::Connect { node: node@, timeout }),
    {
        let target = node.clone();
        (
            Handshake { node, timeout, greeting, state: State::Connecting },
            Request::Connect { node: target, timeout },
        )
    }

    /// The node that this handshake is with.
    pub fn node(&self) -> (r: &Node)
        ensures
            r@ == self@.node,
    {
        &self.node
    }

    /// The milliseconds granted to each operation.
    pub fn timeout(&self) -> (r: u64)
        ensures
            r == self@.timeout,
    {
        self.timeout
    }

    /// The state reached.
    pub fn state(&self) -> (r: &State)
        ensures
            r@ == self@.state,
    {
        &self.state
    }

    /// Whether the handshake is over.
    pub fn is_finished(&self) -> (r: bool)
        ensures
            r == self@.state.finished(),
    {
        match &self.state {
            State::Negotiated { teardown, .. } => *teardown == Teardown::Finished,
            State::Failed { teardown, .. } => *teardown == Teardown::Finished,
            _ => false,
        }
    }

    /// Takes the event that reports on the last request and moves on: the
    /// handshake in its next state, and the next request.
    pub fn step(self, event: Event) -> (r: (Handshake, Request))
        ensures
            r.0@ == (HandshakeView { state: transition(self@, event@).0, ..self@ }),
            r.1@ == transition(self@, event@).1,
    {
        let Handshake { node, timeout, greeting, state } = self;
        let (state, request) = match state {
            State::Connecting => match event {
                Event::Connected => (
                    State::GreetingSent,
                    Request::Send {
                        message: Message::Hello(greeting.clone()),
                        timeout,
                        expect_response: true,
                    },
                ),
                Event::Failed(failure) => fail(
                    HandshakeError::TransportError(
                        TransportError::attribute(failure, &node, timeout),
                    ),
                    false,
                ),
                _ => (State::Connecting, Request::Await),
            },
            State::GreetingSent => Self::answered(State::GreetingSent, event, &node, timeout),
            State::AwaitingGreeting => Self::answered(
                State::AwaitingGreeting,
                event,
                &node,
                timeout,
            ),
            State::Negotiated { capabilities, teardown } => match teardown {
                Teardown::Notifying => match event {
                    Event::Sent | Event::Failed(_) => (
                        State::Negotiated { capabilities, teardown: Teardown::Closing },
                        Request::Close,
                    ),
                    _ => (State::Negotiated { capabilities, teardown }, Request::Await),
                },
                Teardown::Closing => match event {
                    Event::Closed | Event::Failed(_) => (
                        State::Negotiated { capabilities, teardown: Teardown::Finished },
                        Request::Finish,
                    ),
                    _ => (State::Negotiated { capabilities, teardown }, Request::Await),
                },
                Teardown::Finished => (State::Negotiated { capabilities, teardown }, Request::Finish),
            },
            State::Failed { error, teardown } => match teardown {
                Teardown::Finished => (State::Failed { error, teardown }, Request::Finish),
                _ => match event {
                    Event::Closed | Event::Failed(_) => (
                        State::Failed { error, teardown: Teardown::Finished },
                        Request::Finish,
                    ),
                    _ => (State::Failed { error, teardown }, Request::Await),
                },
            },
        };
        (Handshake { node, timeout, greeting, state }, request)
    }

    /// The step of a handshake whose greeting is out, in `state`.
    fn answered(state: State, event: Event, node: &Node, timeout: u64) -> (r: (State, Request))
        requires
            state is GreetingSent || state is AwaitingGreeting,
        ensures
            forall|h: HandshakeView|
                h.state == state@ && h.node == node@ && h.timeout == timeout ==> (r.0@, r.1@)
                    == #[trigger] transition(h, event@),
    {
        match event {
            Event::Sent => (State::AwaitingGreeting, Request::Await),
            Event::Frame { size, message } => match handle_handshake_response(size, message) {
                Ok(hello) => (
                    State::Negotiated {
                        capabilities: hello.capabilities,
                        teardown: Teardown::Notifying,
                    },
                    Request::Send {
                        message: Message::Disconnect(CLIENT_QUITTING),
                        timeout,
                        expect_response: false,
                    },
                ),
                Err(error) => fail(error, true),
            },
            Event::Failed(failure) => fail(
                HandshakeError::TransportError(TransportError::attribute(failure, node, timeout)),
                true,
            ),
            _ => (state, Request::Await),
        }
    }

    /// How the handshake ended: the peer with the capabilities it announced,
    /// or the error. `None` as long as the handshake is not finished.
    pub fn outcome(self) -> (r: Option<Result<Peer, HandshakeError>>)
        ensures
            outcome_view(r) == outcome_of(self@),
    {
        match self.state {
            State::Negotiated { capabilities, teardown: Teardown::Finished } => Some(
                Ok(Peer { node: self.node, capabilities }),
            ),
            State::Failed { error, teardown: Teardown::Finished } => Some(Err(error)),
            _ => None,
        }
    }
}

impl StateView {
    /// The peer's answer is still to come.
    pub open spec fn awaits_answer(self) -> bool {
        self is GreetingSent || self is AwaitingGreeting
    }
}

/// A frame above the size limit fails the handshake with the error that
/// names its size and the limit, whatever the frame decodes to.
pub proof fn oversized_frame_fails(h: HandshakeView, size: usize, message: ReceivedView)
    requires
        h.state.awaits_answer(),
        size > MAX_PAYLOAD_SIZE,
    ensures
        transition(h, EventView::Frame { size, message }) == (
            StateView::Failed {
                error: HandshakeErrorView::MessageTooBig { size, max: MAX_PAYLOAD_SIZE },
                teardown: Teardown::Closing,
            },
            RequestView::Close,
        ),
{
}

/// An operation that runs out of time fails the handshake with a timeout
/// that names the node and carries the configured bound.
pub proof fn timeout_carries_configured_bound(h: HandshakeView)
    requires
        h.state is Connecting || h.state.awaits_answer(),
    ensures
        transition(h, EventView::Failed(FailureView::Elapsed)).0 matches StateView::Failed {
            error,
            ..
        } && error == HandshakeErrorView::TransportError(
            TransportErrorView::NodeTimeout { node: h.node, after: h.timeout },
        ),
{
}

/// A disconnect in place of the greeting fails the handshake with the
/// reason that the peer gave.
pub proof fn disconnect_is_reported(h: HandshakeView, size: usize, reason: u8)
    requires
        h.state.awaits_answer(),
        size <= MAX_PAYLOAD_SIZE,
    ensures
        transition(h, EventView::Frame { size, message: ReceivedView::Disconnect(reason) }).0 == (
            StateView::Failed {
                error: HandshakeErrorView::DisconnectReceived(reason),
                teardown: Teardown::Closing,
            }
        ),
{
}

/// A handshake has an outcome exactly when it is finished, and a peer that
/// comes out of it is the node that the handshake was with.
pub proof fn outcome_iff_finished(h: HandshakeView)
    ensures
        outcome_of(h).is_some() <==> h.state.finished(),
        outcome_of(h) matches Some(Ok(peer)) ==> peer.node == h.node,
{
}

/// A finished handshake stays as it is, whatever is reported to it.
pub proof fn finished_is_final(h: HandshakeView, e: EventView)
    requires
        h.state.finished(),
    ensures
        transition(h, e) == (h.state, RequestView::Finish),
{
}

/// The handshake asks to finish exactly when it is over, and by then the
/// session is released. A failure, once met, is never revised, and neither
/// is what a peer announced.
pub proof fn steps_are_orderly(h: HandshakeView, e: EventView)
    ensures
        transition(h, e).1 is Finish <==> transition(h, e).0.finished(),
        transition(h, e).0.finished() ==> !transition(h, e).0.session_open(),
        h.state matches StateView::Failed { error, .. } ==> (transition(h, e).0 matches StateView::Failed {
            error: kept,
            ..
        } && kept == error),
        h.state matches StateView::Negotiated { capabilities, .. } ==> (transition(
            h,
            e,
        ).0 matches StateView::Negotiated { capabilities: kept, .. } && kept == capabilities),
{
}

} // verus!
