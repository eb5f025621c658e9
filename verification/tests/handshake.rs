use eths::capability::Capability;
use eths::cfg::Node;
use eths::client::{handle_handshake_response, HandshakeError, Peer, MAX_PAYLOAD_SIZE};
use eths::handshake::{Handshake, State, Teardown};
use eths::message::{Hello, Message, Received, CLIENT_QUITTING, PROTOCOL_VERSION};
use eths::transport::{Event, Failure, Request, TransportError};

fn cap(name: &str, version: usize) -> Capability {
    Capability { name: name.to_string(), version }
}

fn node() -> Node {
    Node { id: "ab".to_string(), ip: "10.1.2.3".to_string(), port: 30303 }
}

fn greeting() -> Hello {
    Hello {
        protocol_version: PROTOCOL_VERSION,
        client_version: "eths/0.1.0".to_string(),
        capabilities: vec![cap("eth", 66), cap("eth", 68)],
        id: vec![7; 64],
    }
}

fn peer_hello(capabilities: Vec<Capability>) -> Hello {
    Hello {
        protocol_version: PROTOCOL_VERSION,
        client_version: "peer/1".to_string(),
        capabilities,
        id: vec![9; 64],
    }
}

fn started(timeout: u64) -> Handshake {
    Handshake::start(node(), timeout, greeting()).0
}

fn greeted(timeout: u64) -> Handshake {
    let (h, _) = started(timeout).step(Event::Connected);
    let (h, _) = h.step(Event::Sent);
    h
}

#[test]
fn start_asks_to_connect() {
    let (h, request) = Handshake::start(node(), 2500, greeting());
    assert_eq!(request, Request::Connect { node: node(), timeout: 2500 });
    assert_eq!(h.state(), &State::Connecting);
    assert_eq!(h.node(), &node());
    assert_eq!(h.timeout(), 2500);
    assert!(!h.is_finished());
    assert_eq!(h.outcome(), None);
}

#[test]
fn connected_sends_the_greeting_and_expects_an_answer() {
    let (h, request) = started(2500).step(Event::Connected);
    assert_eq!(h.state(), &State::GreetingSent);
    assert_eq!(
        request,
        Request::Send { message: Message::Hello(greeting()), timeout: 2500, expect_response: true }
    );
}

#[test]
fn sent_greeting_awaits_the_answer() {
    let (h, _) = started(2500).step(Event::Connected);
    let (h, request) = h.step(Event::Sent);
    assert_eq!(h.state(), &State::AwaitingGreeting);
    assert_eq!(request, Request::Await);
}

#[test]
fn successful_handshake_runs_to_the_end() {
    let announced = vec![cap("eth", 66), cap("eth", 67)];
    let (h, request) =
        greeted(2500).step(Event::Frame { size: 120, message: Received::Hello(peer_hello(announced.clone())) });
    assert_eq!(
        h.state(),
        &State::Negotiated { capabilities: announced.clone(), teardown: Teardown::Notifying }
    );
    assert_eq!(
        request,
        Request::Send {
            message: Message::Disconnect(CLIENT_QUITTING),
            timeout: 2500,
            expect_response: false
        }
    );
    assert!(!h.is_finished());
    let (h, request) = h.step(Event::Sent);
    assert_eq!(request, Request::Close);
    assert_eq!(
        h.state(),
        &State::Negotiated { capabilities: announced.clone(), teardown: Teardown::Closing }
    );
    let (h, request) = h.step(Event::Closed);
    assert_eq!(request, Request::Finish);
    assert!(h.is_finished());
    assert_eq!(h.outcome(), Some(Ok(Peer { node: node(), capabilities: announced })));
}

#[test]
fn answer_may_arrive_without_a_separate_sent() {
    let (h, _) = started(2500).step(Event::Connected);
    let (h, _) = h.step(Event::Frame { size: 10, message: Received::Hello(peer_hello(vec![cap("les", 1)])) });
    assert_eq!(
        h.state(),
        &State::Negotiated { capabilities: vec![cap("les", 1)], teardown: Teardown::Notifying }
    );
}

#[test]
fn failed_disconnect_notice_is_passed_over() {
    let (h, _) = greeted(2500).step(Event::Frame { size: 1, message: Received::Hello(peer_hello(vec![cap("eth", 66)])) });
    let (h, request) = h.step(Event::Failed(Failure::Io("broken pipe".to_string())));
    assert_eq!(request, Request::Close);
    let (h, request) = h.step(Event::Failed(Failure::Io("gone".to_string())));
    assert_eq!(request, Request::Finish);
    assert_eq!(h.outcome(), Some(Ok(Peer { node: node(), capabilities: vec![cap("eth", 66)] })));
}

#[test]
fn connect_timeout_carries_the_configured_bound() {
    let (h, request) = started(2500).step(Event::Failed(Failure::Elapsed));
    assert_eq!(request, Request::Finish);
    assert!(h.is_finished());
    assert_eq!(
        h.outcome(),
        Some(Err(HandshakeError::TransportError(TransportError::NodeTimeout {
            node: node(),
            after: 2500
        })))
    );
}

#[test]
fn response_timeout_carries_the_configured_bound() {
    let (h, request) = greeted(1234).step(Event::Failed(Failure::Elapsed));
    assert_eq!(request, Request::Close);
    assert_eq!(
        h.state(),
        &State::Failed {
            error: HandshakeError::TransportError(TransportError::NodeTimeout {
                node: node(),
                after: 1234
            }),
            teardown: Teardown::Closing
        }
    );
    assert_eq!(h.outcome(), None);
}

#[test]
fn connect_failure_ends_without_a_session_to_close() {
    let (h, request) = started(5).step(Event::Failed(Failure::Io("refused".to_string())));
    assert_eq!(request, Request::Finish);
    assert_eq!(
        h.outcome(),
        Some(Err(HandshakeError::TransportError(TransportError::IOError("refused".to_string()))))
    );
    let (h, request) = started(5).step(Event::Failed(Failure::Ecies("bad mac".to_string())));
    assert_eq!(request, Request::Finish);
    assert_eq!(
        h.outcome(),
        Some(Err(HandshakeError::TransportError(TransportError::EciesError("bad mac".to_string()))))
    );
}

#[test]
fn no_response_names_the_node() {
    let (h, request) = greeted(5).step(Event::Failed(Failure::NoResponse));
    assert_eq!(request, Request::Close);
    let (h, request) = h.step(Event::Closed);
    assert_eq!(request, Request::Finish);
    assert_eq!(
        h.outcome(),
        Some(Err(HandshakeError::TransportError(TransportError::NoResponse { node: node() })))
    );
}

#[test]
fn oversized_frame_fails_whatever_it_holds() {
    let size = 16_777_217;
    let contents = vec![
        Received::Hello(peer_hello(vec![cap("eth", 66)])),
        Received::Disconnect(4),
        Received::Other,
        Received::Undecodable("junk".to_string()),
    ];
    for message in contents {
        let (h, request) = greeted(2500).step(Event::Frame { size, message });
        assert_eq!(request, Request::Close);
        assert_eq!(
            h.state(),
            &State::Failed {
                error: HandshakeError::MessageTooBig { size: 16_777_217, max: 16_777_216 },
                teardown: Teardown::Closing
            }
        );
    }
}

#[test]
fn frame_at_the_limit_is_accepted() {
    assert_eq!(MAX_PAYLOAD_SIZE, 16_777_216);
    let hello = peer_hello(vec![cap("eth", 66)]);
    assert_eq!(
        handle_handshake_response(16_777_216, Received::Hello(hello.clone())),
        Ok(hello.clone())
    );
    assert_eq!(
        handle_handshake_response(16_777_217, Received::Hello(hello)),
        Err(HandshakeError::MessageTooBig { size: 16_777_217, max: 16_777_216 })
    );
}

#[test]
fn responses_are_classified() {
    assert_eq!(
        handle_handshake_response(3, Received::Disconnect(8)),
        Err(HandshakeError::DisconnectReceived(8))
    );
    assert_eq!(
        handle_handshake_response(3, Received::Undecodable("short".to_string())),
        Err(HandshakeError::DecodeFailed("short".to_string()))
    );
    assert_eq!(handle_handshake_response(3, Received::Other), Err(HandshakeError::NonHelloMessage));
}

#[test]
fn disconnect_in_place_of_greeting_is_reported_with_its_reason() {
    let (h, request) = greeted(2500).step(Event::Frame { size: 3, message: Received::Disconnect(4) });
    assert_eq!(request, Request::Close);
    let (h, request) = h.step(Event::Closed);
    assert_eq!(request, Request::Finish);
    assert_eq!(h.outcome(), Some(Err(HandshakeError::DisconnectReceived(4))));
}

#[test]
fn undecodable_and_other_messages_fail() {
    let (h, _) = greeted(1).step(Event::Frame { size: 3, message: Received::Undecodable("odd".to_string()) });
    assert_eq!(
        h.state(),
        &State::Failed {
            error: HandshakeError::DecodeFailed("odd".to_string()),
            teardown: Teardown::Closing
        }
    );
    let (h, _) = greeted(1).step(Event::Frame { size: 3, message: Received::Other });
    assert_eq!(
        h.state(),
        &State::Failed { error: HandshakeError::NonHelloMessage, teardown: Teardown::Closing }
    );
}

#[test]
fn finished_handshake_stays_as_it_is() {
    let (h, _) = started(9).step(Event::Failed(Failure::Elapsed));
    let events = vec![
        Event::Connected,
        Event::Sent,
        Event::Frame { size: 1, message: Received::Other },
        Event::Failed(Failure::NoResponse),
        Event::Closed,
    ];
    let mut h = h;
    for event in events {
        let before = format!("{:?}", h);
        let (next, request) = h.step(event);
        assert_eq!(request, Request::Finish);
        assert_eq!(format!("{:?}", next), before);
        h = next;
    }
}

#[test]
fn unexpected_events_change_nothing() {
    let (h, request) = started(9).step(Event::Sent);
    assert_eq!(request, Request::Await);
    assert_eq!(h.state(), &State::Connecting);
    let (h, request) = h.step(Event::Closed);
    assert_eq!(request, Request::Await);
    assert_eq!(h.state(), &State::Connecting);
    let (h, request) = greeted(9).step(Event::Connected);
    assert_eq!(request, Request::Await);
    assert_eq!(h.state(), &State::AwaitingGreeting);
}

#[test]
fn failure_is_attributed_to_the_node() {
    assert_eq!(
        TransportError::attribute(Failure::Elapsed, &node(), 2500),
        TransportError::NodeTimeout { node: node(), after: 2500 }
    );
    assert_eq!(
        TransportError::attribute(Failure::NoResponse, &node(), 2500),
        TransportError::NoResponse { node: node() }
    );
    assert_eq!(
        TransportError::attribute(Failure::Io("x".to_string()), &node(), 1),
        TransportError::IOError("x".to_string())
    );
    assert_eq!(
        TransportError::attribute(Failure::Ecies("y".to_string()), &node(), 1),
        TransportError::EciesError("y".to_string())
    );
}
