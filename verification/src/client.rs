//! The client: its errors, the peers it finds, and the choice among them.

use vstd::prelude::*;
use rand_chacha::rand_core::SeedableRng;
use crate::capability::{
    capabilities_view, clone_capabilities, negotiate, shared_pairs, Capability,
};
use crate::cfg::{Config, Node, NodeView};
use crate::handshake::{Handshake, HandshakeView, StateView};
use crate::message::{clone_bytes, Hello, HelloView, Received, ReceivedView, PROTOCOL_VERSION};
use crate::transport::{Request, RequestView, TransportError, TransportErrorView};

verus! {

/// The largest frame, in bytes, that a handshake accepts from a peer.
pub const MAX_PAYLOAD_SIZE: usize = 16 * 1024 * 1024;

/// Why the handshake with one node failed.
#[derive(Debug, PartialEq, Eq)]
pub enum HandshakeError {
    /// The transport failed.
    TransportError(TransportError),
    /// The task that ran the handshake did not complete.
    JoinError(String),
    /// The peer sent a frame of `size` bytes, above the limit `max`.
    MessageTooBig { size: usize, max: usize },
    /// The peer answered with a disconnect, for the reason given.
    DisconnectReceived(u8),
    /// The peer's frame is no message.
    DecodeFailed(String),
    /// The peer's message is neither a greeting nor a disconnect.
    NonHelloMessage,
}

/// What a [`HandshakeError`] holds, as plain values.
pub enum HandshakeErrorView {
    TransportError(TransportErrorView),
    JoinError(Seq<char>),
    MessageTooBig { size: usize, max: usize },
    DisconnectReceived(u8),
    DecodeFailed(Seq<char>),
    NonHelloMessage,
}

impl View for HandshakeError {
    type V = HandshakeErrorView;

    open spec fn view(&self) -> HandshakeErrorView {
        match self {
            HandshakeError::TransportError(e) => HandshakeErrorView::TransportError(e@),
            HandshakeError::JoinError(detail) => HandshakeErrorView::JoinError(detail@),
            HandshakeError::MessageTooBig { size, max } => HandshakeErrorView::MessageTooBig {
                size: *size,
                max: *max,
            },
            HandshakeError::DisconnectReceived(reason) => HandshakeErrorView::DisconnectReceived(
                *reason,
            ),
            HandshakeError::DecodeFailed(detail) => HandshakeErrorView::DecodeFailed(detail@),
            HandshakeError::NonHelloMessage => HandshakeErrorView::NonHelloMessage,
        }
    }
}

/// A node that answered the greeting, with the capabilities it announced.
#[derive(Debug, PartialEq, Eq)]
pub struct Peer {
    pub node: Node,
    pub capabilities: Vec<Capability>,
}

/// What a [`Peer`] holds, as plain values.
pub struct PeerView {
    pub node: NodeView,
    pub capabilities: Seq<(Seq<char>, nat)>,
}

impl View for Peer {
    type V = PeerView;

    open spec fn view(&self) -> PeerView {
        PeerView { node: self.node@, capabilities: capabilities_view(self.capabilities@) }
    }
}

/// What a frame of `size` bytes that decodes to `response` means for the
/// handshake: the peer's greeting, or the reason to give up. The size is
/// judged first, whatever the frame holds.
pub open spec fn response_meaning(size: usize, response: ReceivedView) -> Result<
    HelloView,
    HandshakeErrorView,
> {
    if size > MAX_PAYLOAD_SIZE {
        Err(HandshakeErrorView::MessageTooBig { size, max: MAX_PAYLOAD_SIZE })
    } else {
        match response {
            ReceivedView::Hello(hello) => Ok(hello),
            ReceivedView::Disconnect(reason) => Err(HandshakeErrorView::DisconnectReceived(reason)),
            ReceivedView::Undecodable(detail) => Err(HandshakeErrorView::DecodeFailed(detail)),
            ReceivedView::Other => Err(HandshakeErrorView::NonHelloMessage),
        }
    }
}

/// The view of a handled response.
pub open spec fn handled_view(r: Result<Hello, HandshakeError>) -> Result<
    HelloView,
    HandshakeErrorView,
> {
    match r {
        Ok(hello) => Ok(hello@),
        Err(e) => Err(e@),
    }
}

/// Judges the frame that answered the greeting. A frame above
/// [`MAX_PAYLOAD_SIZE`] is refused for its size alone. Below that, only a
/// greeting is accepted.
pub fn handle_handshake_response(size: usize, response: Received) -> (r: Result<
    Hello,
    HandshakeError,
>)
    ensures
        handled_view(r) == response_meaning(size, response@),
{
    if size > MAX_PAYLOAD_SIZE {
        return Err(HandshakeError::MessageTooBig { size, max: MAX_PAYLOAD_SIZE });
    }
    match response {
        Received::Hello(hello) => Ok(hello),
        Received::Disconnect(reason) => Err(HandshakeError::DisconnectReceived(reason)),
        Received::Undecodable(detail) => Err(HandshakeError::DecodeFailed(detail)),
        Received::Other => Err(HandshakeError::NonHelloMessage),
    }
}

impl Clone for Peer {
    fn clone(&self) -> (r: Self)
        ensures
            r@ == self@,
    {
        Peer { node: self.node.clone(), capabilities: clone_capabilities(&self.capabilities) }
    }
}

#[verifier::external_type_specification]
#[verifier::external_body]
pub struct ExSecretKey(secp256k1::SecretKey);

#[verifier::external_type_specification]
#[verifier::external_body]
pub struct ExPublicKey(secp256k1::PublicKey);

/// Draws a key pair with `secp256k1::Secp256k1::generate_keypair`, from a
/// `ChaChaRng` that `SeedableRng::from_entropy` seeds. Nothing is claimed of
/// the keys: they differ from call to call.
#[verifier::external_body]
fn generate_keypair() -> (keys: (secp256k1::SecretKey, secp256k1::PublicKey)) {
    secp256k1::Secp256k1::new().generate_keypair(&mut rand_chacha::ChaChaRng::from_entropy())
}

/// The uncompressed encoding of a public key, as
/// `secp256k1::PublicKey::serialize_uncompressed` gives it: 65 bytes, by
/// its type. Nothing is claimed of the bytes.
#[verifier::external_body]
fn serialize_uncompressed(key: &secp256k1::PublicKey) -> (bytes: [u8; 65]) {
    key.serialize_uncompressed()
}

/// The identifier that stands for a public key on the wire: its
/// uncompressed encoding without the leading tag byte.
pub fn id_from_uncompressed(bytes: &[u8; 65]) -> (id: Vec<u8>)
    ensures
        id@ == bytes@.subrange(1, 65),
{
    let mut id: Vec<u8> = Vec::new();
    let mut i: usize = 1;
    while i < 65
        invariant
            1 <= i <= 65,
            id@ == bytes@.subrange(1, i as int),
        decreases 65 - i,
    {
        id.push(bytes[i]);
        assert(bytes@.subrange(1, i as int).push(bytes@[i as int]) =~= bytes@.subrange(
            1,
            i + 1,
        ));
        i += 1;
    }
    id
}

/// What this client announces: the sub-protocol `eth` in the versions 66,
/// 67 and 68.
pub open spec fn local_capabilities() -> Seq<(Seq<char>, nat)> {
    seq![("eth"@, 66nat), ("eth"@, 67nat), ("eth"@, 68nat)]
}

/// This client shares a sub-protocol with a node that announces `remote`.
pub open spec fn shares(remote: Seq<(Seq<char>, nat)>) -> bool {
    exists|p: (Seq<char>, nat)| shared_pairs(local_capabilities(), remote).contains(p)
}

/// What the client makes of the outcome of one handshake.
#[derive(Debug, Clone, Copy, PartialEq, Eq, Structural)]
pub enum Verdict {
    /// The peer answered and shares a sub-protocol: it is a candidate.
    Candidate,
    /// The peer answered but shares nothing.
    NoSharedCapabilities,
    /// The handshake failed.
    HandshakeFailed,
    /// The task that ran the handshake did not complete.
    TaskFailed,
}

/// The view of the outcome of one handshake.
pub open spec fn outcome_view(outcome: Result<Peer, HandshakeError>) -> Result<
    PeerView,
    HandshakeErrorView,
> {
    match outcome {
        Ok(peer) => Ok(peer@),
        Err(error) => Err(error@),
    }
}

/// The views of a run of outcomes, in order.
pub open spec fn outcomes_view(outcomes: Seq<Result<Peer, HandshakeError>>) -> Seq<
    Result<PeerView, HandshakeErrorView>,
> {
    outcomes.map_values(|o: Result<Peer, HandshakeError>| outcome_view(o))
}

/// The views of a run of peers, in order.
pub open spec fn peers_view(peers: Seq<Peer>) -> Seq<PeerView> {
    peers.map_values(|p: Peer| p@)
}

/// The verdict on an outcome.
pub open spec fn verdict_of(outcome: Result<PeerView, HandshakeErrorView>) -> Verdict {
    match outcome {
        Ok(peer) => if shares(peer.capabilities) {
            Verdict::Candidate
        } else {
            Verdict::NoSharedCapabilities
        },
        Err(HandshakeErrorView::JoinError(_)) => Verdict::TaskFailed,
        Err(_) => Verdict::HandshakeFailed,
    }
}

/// The peer that an outcome contributes to the result, if any.
pub open spec fn candidate(outcome: Result<PeerView, HandshakeErrorView>) -> Option<PeerView> {
    match outcome {
        Ok(peer) => if shares(peer.capabilities) {
            Some(peer)
        } else {
            None
        },
        Err(_) => None,
    }
}

/// The peers that a run of outcomes leaves: those that answered and share
/// a sub-protocol with this client, in the order of the outcomes.
pub open spec fn candidates(outcomes: Seq<Result<PeerView, HandshakeErrorView>>) -> Seq<PeerView> {
    outcomes.filter_map(|o: Result<PeerView, HandshakeErrorView>| candidate(o))
}

/// The handshake client: the configuration and the key pair that identifies
/// this node for as long as the client lives.
pub struct Client {
    config: Config,
    private_key: secp256k1::SecretKey,
    public_key: secp256k1::PublicKey,
    id: Vec<u8>,
}

impl Clone for Client {
    fn clone(&self) -> (r: Self)
        ensures
            r.spec_config()@ == self.spec_config()@,
            r.spec_private_key() == self.spec_private_key(),
            r.spec_public_key() == self.spec_public_key(),
            r.spec_id() == self.spec_id(),
    {
        Client {
            config: self.config.clone(),
            private_key: self.private_key,
            public_key: self.public_key,
            id: clone_bytes(&self.id),
        }
    }
}

impl Client {
    /// The configuration.
    pub closed spec fn spec_config(&self) -> Config {
        self.config
    }

    /// The secret key.
    pub closed spec fn spec_private_key(&self) -> secp256k1::SecretKey {
        self.private_key
    }

    /// The public key.
    pub closed spec fn spec_public_key(&self) -> secp256k1::PublicKey {
        self.public_key
    }

    /// The identifier of this node: its public key without the tag byte.
    pub closed spec fn spec_id(&self) -> Seq<u8> {
        self.id@
    }

    /// The greeting of this client.
    pub open spec fn spec_greeting(&self) -> HelloView {
        HelloView {
            protocol_version: PROTOCOL_VERSION,
            client_version: "eths/0.1.0"@,
            capabilities: local_capabilities(),
            id: self.spec_id(),
        }
    }

    /// A client for `config`, with a key pair of its own and the 64 bytes
    /// that identify it.
    pub fn new(config: Config) -> (client: Client)
        ensures
            client.spec_config() == config,
            client.spec_id().len() == 64,
    {
        let keys = generate_keypair();
        let encoded = serialize_uncompressed(&keys.1);
        Client { config, private_key: keys.0, public_key: keys.1, id: id_from_uncompressed(&encoded) }
    }

    /// The configuration.
    pub fn config(&self) -> (r: &Config)
        ensures
            *r == self.spec_config(),
    {
        &self.config
    }

    /// The secret key that the transport opens sessions with.
    pub fn private_key(&self) -> (key: secp256k1::SecretKey)
        ensures
            key == self.spec_private_key(),
    {
        self.private_key
    }

    /// The public key that peers know this node by.
    pub fn public_key(&self) -> (key: secp256k1::PublicKey)
        ensures
            key == self.spec_public_key(),
    {
        self.public_key
    }

    /// The bytes that identify this node in its greeting.
    pub fn peer_id(&self) -> (id: Vec<u8>)
        ensures
            id@ == self.spec_id(),
    {
        clone_bytes(&self.id)
    }

    /// How this client describes itself.
    pub fn get_client_version() -> (r: &'static str)
        ensures
            r@ == "eths/0.1.0"@,
    {
        "eths/0.1.0"
    }

    /// The version of the base protocol that this client speaks.
    pub fn get_client_protocol_version() -> (r: u8)
        ensures
            r == PROTOCOL_VERSION,
    {
        PROTOCOL_VERSION
    }

    /// The capabilities that this client announces, in order.
    pub fn get_client_capabilities() -> (r: Vec<Capability>)
        ensures
            capabilities_view(r@) == local_capabilities(),
    {
        let mut list: Vec<Capability> = Vec::new();
        list.push(Capability { name: "eth".to_owned(), version: 66 });
        list.push(Capability { name: "eth".to_owned(), version: 67 });
        list.push(Capability { name: "eth".to_owned(), version: 68 });
        assert(capabilities_view(list@) =~= local_capabilities());
        list
    }

    /// The greeting of this client: its identifier, its description, the
    /// version of the base protocol and its capabilities.
    pub fn greeting(&self) -> (hello: Hello)
        ensures
            hello@ == self.spec_greeting(),
    {
        Hello {
            protocol_version: Self::get_client_protocol_version(),
            client_version: Self::get_client_version().to_owned(),
            capabilities: Self::get_client_capabilities(),
            id: self.peer_id(),
        }
    }

    /// Begins the handshake with `node`: the handshake, about to connect,
    /// and the request to do so within the configured timeout.
    pub fn handshake(&self, node: Node) -> (r: (Handshake, Request))
        ensures
            r.0@ == (HandshakeView {
                node: node@,
                timeout: self.spec_config().timeout,
                greeting: self.spec_greeting(),
                state: StateView::Connecting,
            }),
            r.1@ == (RequestView::Connect { node: node@, timeout: self.spec_config().timeout }),
    {
        Handshake::start(node, self.config.timeout, self.greeting())
    }

    /// Whether this client shares a sub-protocol with a node that announces
    /// `remote`.
    pub fn shares_with(remote: &Vec<Capability>) -> (r: bool)
        ensures
            r == shares(capabilities_view(remote@)),
    {
        let local = Self::get_client_capabilities();
        let shared = negotiate(&local, remote);
        let found = !shared.is_empty();
        proof {
            let pairs = shared_pairs(local_capabilities(), capabilities_view(remote@));
            if found {
                assert(shared.pairs().contains((shared@[0].name, shared@[0].version)));
            } else {
                assert forall|p: (Seq<char>, nat)| !pairs.contains(p) by {
                    assert(!shared.pairs().contains(p));
                }
            }
        }
        found
    }

    /// The verdict on the outcome of one handshake.
    pub fn judge(outcome: &Result<Peer, HandshakeError>) -> (r: Verdict)
        ensures
            r == verdict_of(outcome_view(*outcome)),
    {
        match outcome {
            Ok(peer) => if Self::shares_with(&peer.capabilities) {
                Verdict::Candidate
            } else {
                Verdict::NoSharedCapabilities
            },
            Err(HandshakeError::JoinError(_)) => Verdict::TaskFailed,
            Err(_) => Verdict::HandshakeFailed,
        }
    }

    /// Gathers the candidate peers from the outcomes of the handshakes, one
    /// outcome per configured node, in the order in which they completed.
    ///
    /// A peer is kept when its handshake succeeded and it shares a
    /// sub-protocol with this client. Every other outcome is passed over, so
    /// the result is `Ok` whatever the outcomes are, and empty when no peer
    /// qualifies.
    pub fn handshake_nodes(&self, outcomes: Vec<Result<Peer, HandshakeError>>) -> (r: Result<
        Vec<Peer>,
        HandshakeError,
    >)
        ensures
            r.is_ok(),
            peers_view(r.unwrap()@) == candidates(outcomes_view(outcomes@)),
            forall|k: int|
                0 <= k < r.unwrap()@.len() ==> shares(
                    (#[trigger] peers_view(r.unwrap()@)[k]).capabilities,
                ),
    {
        let ghost ov = outcomes_view(outcomes@);
        let ghost f = |o: Result<PeerView, HandshakeErrorView>| candidate(o);
        let mut peers: Vec<Peer> = Vec::new();
        let mut i: usize = 0;
        assert(ov.take(0).filter_map(f) =~= Seq::<PeerView>::empty());
        while i < outcomes.len()
            invariant
                i <= outcomes@.len(),
                ov == outcomes_view(outcomes@),
                f == |o: Result<PeerView, HandshakeErrorView>| candidate(o),
                peers_view(peers@) == ov.take(i as int).filter_map(f),
                forall|k: int|
                    0 <= k < peers@.len() ==> shares((#[trigger] peers_view(peers@)[k]).capabilities),
            decreases outcomes@.len() - i,
        {
            proof {
                ov.lemma_filter_map_take_succ(f, i as int);
            }
            let ghost before = peers_view(peers@);
            match Self::judge(&outcomes[i]) {
                Verdict::Candidate => {
                    match &outcomes[i] {
                        Ok(peer) => {
                            peers.push(peer.clone());
                            assert(peers_view(peers@) =~= before.push(peer@));
                        },
                        Err(_) => {},
                    }
                },
                _ => {},
            }
            assert(peers_view(peers@) =~= ov.take(i + 1).filter_map(f));
            i += 1;
        }
        assert(ov.take(outcomes@.len() as int) =~= ov);
        Ok(peers)
    }
}

/// Taking one outcome out of a run takes the peer it contributes, if any,
/// out of the candidates, and no other.
proof fn lemma_candidates_remove(outcomes: Seq<Result<PeerView, HandshakeErrorView>>, at: int)
    requires
        0 <= at < outcomes.len(),
    ensures
        candidates(outcomes).to_multiset() == (match candidate(outcomes[at]) {
            Some(peer) => candidates(outcomes.remove(at)).to_multiset().insert(peer),
            None => candidates(outcomes.remove(at)).to_multiset(),
        }),
    decreases outcomes.len(),
{
    broadcast use vstd::seq_lib::group_to_multiset_ensures;

    let f = |o: Result<PeerView, HandshakeErrorView>| candidate(o);
    let rest = outcomes.drop_last();
    let last = outcomes.last();
    if at == outcomes.len() - 1 {
        assert(outcomes.remove(at) =~= rest);
        if let Some(peer) = candidate(last) {
            assert(rest.filter_map(f) + seq![peer] =~= rest.filter_map(f).push(peer));
        }
    } else {
        lemma_candidates_remove(rest, at);
        let cut = outcomes.remove(at);
        assert(cut.drop_last() =~= rest.remove(at));
        assert(cut.last() == last);
        assert(rest[at] == outcomes[at]);
        if let Some(peer) = candidate(last) {
            assert(rest.filter_map(f) + seq![peer] =~= rest.filter_map(f).push(peer));
            assert(cut.drop_last().filter_map(f) + seq![peer] =~= cut.drop_last().filter_map(
                f,
            ).push(peer));
        }
        assert(candidates(outcomes).to_multiset() =~= (match candidate(outcomes[at]) {
            Some(peer) => candidates(cut).to_multiset().insert(peer),
            None => candidates(cut).to_multiset(),
        }));
    }
}

/// The candidates do not depend on the order in which the handshakes
/// complete: two runs of the same outcomes, in whatever order, leave the
/// same peers, each as often.
pub proof fn candidates_order_independent(
    a: Seq<Result<PeerView, HandshakeErrorView>>,
    b: Seq<Result<PeerView, HandshakeErrorView>>,
)
    requires
        a.to_multiset() == b.to_multiset(),
    ensures
        candidates(a).to_multiset() == candidates(b).to_multiset(),
        candidates(a).to_set() == candidates(b).to_set(),
    decreases a.len(),
{
    broadcast use vstd::seq_lib::group_to_multiset_ensures;

    if a.len() == 0 {
        a.to_multiset_ensures();
        b.to_multiset_ensures();
        assert(a =~= b);
    } else {
        let last = a.last();
        assert(a =~= a.drop_last().push(last));
        assert(a.to_multiset().count(last) > 0);
        assert(b.contains(last));
        let at = choose|at: int| 0 <= at < b.len() && b[at] == last;
        assert(a.drop_last() =~= a.remove(a.len() - 1));
        assert(a.drop_last().to_multiset() =~= b.remove(at).to_multiset());
        candidates_order_independent(a.drop_last(), b.remove(at));
        lemma_candidates_remove(a, a.len() - 1);
        lemma_candidates_remove(b, at);
    }
    assert(candidates(a).to_set() =~= candidates(b).to_set()) by {
        assert forall|p: PeerView| candidates(a).contains(p) <==> candidates(b).contains(p) by {
            assert(candidates(a).to_multiset().count(p) == candidates(b).to_multiset().count(p));
        }
    }
}

/// A peer is a candidate only if it shares a sub-protocol with this
/// client, and every outcome that holds such a peer makes it one.
pub proof fn candidates_share(outcomes: Seq<Result<PeerView, HandshakeErrorView>>, peer: PeerView)
    ensures
        candidates(outcomes).contains(peer) <==> outcomes.contains(Ok(peer)) && shares(
            peer.capabilities,
        ),
    decreases outcomes.len(),
{
    let f = |o: Result<PeerView, HandshakeErrorView>| candidate(o);
    let hit: Result<PeerView, HandshakeErrorView> = Ok(peer);
    if outcomes.len() > 0 {
        let rest = outcomes.drop_last();
        let last = outcomes.last();
        candidates_share(rest, peer);
        assert(outcomes =~= rest.push(last));
        if rest.contains(hit) {
            let k = choose|k: int| 0 <= k < rest.len() && rest[k] == hit;
            assert(outcomes[k] == hit);
        }
        if outcomes.contains(hit) && last != hit {
            let k = choose|k: int| 0 <= k < outcomes.len() && outcomes[k] == hit;
            assert(rest[k] == hit);
        }
        match candidate(last) {
            Some(found) => {
                let kept = rest.filter_map(f);
                assert(candidates(outcomes) =~= kept.push(found));
                assert(kept.push(found)[kept.len() as int] == found);
                if candidates(outcomes).contains(peer) && found != peer {
                    let k = choose|k: int| 0 <= k < kept.len() + 1 && kept.push(found)[k] == peer;
                    assert(kept[k] == peer);
                }
                if kept.contains(peer) {
                    let k = choose|k: int| 0 <= k < kept.len() && kept[k] == peer;
                    assert(kept.push(found)[k] == peer);
                }
            },
            None => {},
        }
    }
}

} // verus!
