//! The messages of the greeting exchange, as values.

use vstd::prelude::*;
use crate::capability::{capabilities_view, clone_capabilities, Capability};

verus! {

/// Reason code of a disconnect that a client sends when it quits of its
/// own accord.
pub const CLIENT_QUITTING: u8 = 0x08;

/// Version tag of the base protocol that greetings carry.
pub const PROTOCOL_VERSION: u8 = 5;

/// The greeting: who a node is and what it supports.
#[derive(Debug, PartialEq, Eq)]
pub struct Hello {
    pub protocol_version: u8,
    pub client_version: String,
    pub capabilities: Vec<Capability>,
    pub id: Vec<u8>,
}

/// What a [`Hello`] holds, as plain values.
pub struct HelloView {
    pub protocol_version: u8,
    pub client_version: Seq<char>,
    pub capabilities: Seq<(Seq<char>, nat)>,
    pub id: Seq<u8>,
}

impl View for Hello {
    type V = HelloView;

    open spec fn view(&self) -> HelloView {
        HelloView {
            protocol_version: self.protocol_version,
            client_version: self.client_version@,
            capabilities: capabilities_view(self.capabilities@),
            id: self.id@,
        }
    }
}

/// A copy of a run of bytes.
pub fn clone_bytes(bytes: &Vec<u8>) -> (r: Vec<u8>)
    ensures
        r@ == bytes@,
{
    let mut copy: Vec<u8> = Vec::new();
    let mut i: usize = 0;
    while i < bytes.len()
        invariant
            i <= bytes@.len(),
            copy@ == bytes@.take(i as int),
        decreases bytes@.len() - i,
    {
        copy.push(bytes[i]);
        assert(bytes@.take(i as int).push(bytes@[i as int]) =~= bytes@.take(i + 1));
        i += 1;
    }
    assert(bytes@.take(bytes@.len() as int) =~= bytes@);
    copy
}

impl Clone for Hello {
    fn clone(&self) -> (r: Self)
        ensures
            r@ == self@,
    {
        Hello {
            protocol_version: self.protocol_version,
            client_version: self.client_version.clone(),
            capabilities: clone_capabilities(&self.capabilities),
            id: clone_bytes(&self.id),
        }
    }
}

/// A message that this client sends.
#[derive(Debug, PartialEq, Eq)]
pub enum Message {
    /// The greeting.
    Hello(Hello),
    /// A disconnect notification with its reason code.
    Disconnect(u8),
}

/// What a [`Message`] holds, as plain values.
pub enum MessageView {
    Hello(HelloView),
    Disconnect(u8),
}

impl View for Message {
    type V = MessageView;

    open spec fn view(&self) -> MessageView {
        match self {
            Message::Hello(hello) => MessageView::Hello(hello@),
            Message::Disconnect(reason) => MessageView::Disconnect(*reason),
        }
    }
}

/// What a received frame turned out to be once decoded.
#[derive(Debug, PartialEq, Eq)]
pub enum Received {
    /// The peer's greeting.
    Hello(Hello),
    /// A disconnect notification with the peer's reason code.
    Disconnect(u8),
    /// A well-formed message of another type.
    Other,
    /// Bytes that are no message, with the decoder's complaint.
    Undecodable(String),
}

/// What a [`Received`] holds, as plain values.
pub enum ReceivedView {
    Hello(HelloView),
    Disconnect(u8),
    Other,
    Undecodable(Seq<char>),
}

impl View for Received {
    type V = ReceivedView;

    open spec fn view(&self) -> ReceivedView {
        match self {
            Received::Hello(hello) => ReceivedView::Hello(hello@),
            Received::Disconnect(reason) => ReceivedView::Disconnect(*reason),
            Received::Other => ReceivedView::Other,
            Received::Undecodable(detail) => ReceivedView::Undecodable(detail@),
        }
    }
}

} // verus!
