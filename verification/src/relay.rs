//! Reaching a peer that is not paired: finding its address through the network, and
//! writing to it through a relay.

use crate::address::{
    canonical_peer, first_ip, multiaddr_ip, named_peer, parsed_address, read_peer_id,
    socket_from_app_multiaddr, strip_p2p, app_socket, Address, AppAddressError, IpAddress, IpView,
    PartView, SocketAddress,
};
use crate::bytes::{copy_bytes, copy_text, same_text, utf8};
use crate::codec::begins_with;
use crate::error::CryptoError;
use crate::handshake::{HandshakeError, MAX_PAYLOAD};
use crate::identity::{BundleView, PreKeyBundle};
use crate::party::{
    is_bundle_of, opened_with, Alice, AliceView, Bob, BobView, InitialMessage, InitialView,
};
use crate::party_laws::law_initial_message_is_read;
use crate::primitives::{aead_overruns, x25519_public};
use crate::ratchet::secrets_agree;
use crate::session::is_sent;
use crate::sorted::{option_view, views};
use crate::text::joined;
use crate::wire::{decode, decoding, encode, is_form_of, Wire};
use vstd::prelude::*;
use vstd::utf8::{decode_utf8, valid_utf8};

verus! {

pub const DISCOVERY_LISTEN_ADDR: &'static str = "/ip4/0.0.0.0/tcp/0";

pub const DISCOVERY_PROTOCOL: &'static str = "/ciphermesh/discovery/3c/1.0.0";

pub const APP_RELAY_PROTOCOL: &'static str = "/ciphermesh/app-bytes/3c/1.0.0";

/// What a peer asks through a relay.
#[derive(Debug, Clone, PartialEq, Eq)]
pub enum CipherMeshRequest {
    PreKeyBundle,
    InitialMessage(Vec<u8>),
}

/// What a peer answers through a relay.
#[derive(Debug, Clone, PartialEq, Eq)]
pub enum CipherMeshResponse {
    PreKeyBundle(Vec<u8>),
    Ack(Vec<u8>),
    Error(String),
}

/// What a peer confirms a message with.
pub const TRANSPORT_ACK: &'static str = "ok";

/// The side that writes to a peer through a relay.
pub struct RelayedSender {
    pub target_peer_id: String,
    pub requested_bundle: bool,
    pub sent_initial: bool,
}

/// What the side that writes does next.
#[derive(Debug, Clone, PartialEq, Eq)]
pub enum RelayedStep {
    Nothing,
    /// The first message is sent.
    SendInitial(Vec<u8>),
    /// The peer has confirmed the message.
    Done(Vec<u8>),
    /// The peer has refused the message.
    Refused(String),
}

impl RelayedSender {
    pub fn new(target_peer_id: &str) -> (sender: RelayedSender)
        ensures
            sender.target_peer_id@ == target_peer_id@,
            !sender.requested_bundle,
            !sender.sent_initial,
    {
        RelayedSender {
            target_peer_id: copy_text(target_peer_id),
            requested_bundle: false,
            sent_initial: false,
        }
    }

    /// A connection to a peer stands. Answers whether to ask for its bundle: once, and only
    /// the peer that is written to.
    pub fn connected(&mut self, peer: &str) -> (ask: bool)
        ensures
            ask == (peer@ == old(self).target_peer_id@ && !old(self).requested_bundle),
            final(self).target_peer_id@ == old(self).target_peer_id@,
            final(self).sent_initial == old(self).sent_initial,
            final(self).requested_bundle == (old(self).requested_bundle || ask),
    {
        if same_text(peer, self.target_peer_id.as_str()) && !self.requested_bundle {
            self.requested_bundle = true;
            true
        } else {
            false
        }
    }

    /// The peer answered. The first bundle is answered with the message; later ones are
    /// ignored.
    pub fn response(&mut self, alice: &mut Alice, message: &str, response: CipherMeshResponse) -> (
        step: Result<RelayedStep, HandshakeError>)
        requires
            !aead_overruns(utf8(message@).len() as int),
        ensures
            final(self).target_peer_id@ == old(self).target_peer_id@,
            final(self).requested_bundle == old(self).requested_bundle,
            match response {
                CipherMeshResponse::Ack(bytes) => {
                    &&& step matches Ok(RelayedStep::Done(shown)) && shown@ == bytes@
                    &&& final(alice)@ == old(alice)@
                    &&& final(self).sent_initial == old(self).sent_initial
                },
                CipherMeshResponse::Error(error) => {
                    &&& step matches Ok(RelayedStep::Refused(shown)) && shown@ == error@
                    &&& final(alice)@ == old(alice)@
                    &&& final(self).sent_initial == old(self).sent_initial
                },
                CipherMeshResponse::PreKeyBundle(bytes) => if old(self).sent_initial {
                    &&& step matches Ok(RelayedStep::Nothing)
                    &&& final(alice)@ == old(alice)@
                    &&& final(self).sent_initial
                } else {
                    match decoding::<PreKeyBundle>(bytes@) {
                        None => {
                            &&& step matches Err(error) && error == HandshakeError::Malformed
                            &&& final(alice)@ == old(alice)@
                            &&& !final(self).sent_initial
                        },
                        Some(bundle) => {
                            &&& !bundle.is_signed() ==> {
                                &&& step matches Err(error) && error == HandshakeError::Crypto(
                                    CryptoError::SignatureVerification,
                                )
                                &&& final(alice)@ == old(alice)@
                            }
                            &&& bundle.is_signed() ==> {
                                &&& step is Err <==> utf8(message@).len() >= 64 * 0xffff_ffff
                                &&& step matches Err(error) ==> error == HandshakeError::Crypto(
                                    CryptoError::Encrypt,
                                )
                                &&& has_opened(old(alice)@, final(alice)@, bundle)
                            }
                            &&& final(self).sent_initial == (step is Ok)
                            &&& step matches Ok(step) ==> step is SendInitial && is_first_message(
                                step->SendInitial_0@,
                                bundle,
                                final(alice)@,
                                message@,
                            )
                        },
                    }
                },
            },
    {
        match response {
            CipherMeshResponse::Ack(bytes) => Ok(RelayedStep::Done(bytes)),
            CipherMeshResponse::Error(error) => Ok(RelayedStep::Refused(error)),
            CipherMeshResponse::PreKeyBundle(bytes) => {
                if self.sent_initial {
                    return Ok(RelayedStep::Nothing);
                }
                let bundle = match decode::<PreKeyBundle>(bytes.as_slice()) {
                    Some(bundle) => bundle,
                    None => {
                        return Err(HandshakeError::Malformed);
                    },
                };
                match alice.encrypt_initial_message(&bundle, message) {
                    Ok(initial) => {
                        let payload = encode(&initial);
                        self.sent_initial = true;
                        proof {
                            assert(is_initial_for(
                                initial@,
                                payload@,
                                bundle@,
                                alice@,
                                message@,
                            ));
                        }
                        assert(is_first_message(payload@, bundle@, alice@, message@));
                        Ok(RelayedStep::SendInitial(payload))
                    },
                    Err(error) => Err(HandshakeError::Crypto(error)),
                }
            },
        }
    }
}

/// Whether Alice has opened a session with a bundle and has sent one message on it.
pub open spec fn has_opened(alice: AliceView, after: AliceView, bundle: BundleView) -> bool {
    &&& after.session matches Some(session)
    &&& session.dh_private.len() == 32
    &&& after == (AliceView {
        session: Some(opened_with(bundle, session.dh_private).send_advanced()),
        ..alice
    })
    &&& forall|peer: Seq<u8>|
        peer.len() == 32 && (#[trigger] x25519_public(peer) == bundle.signed_prekey_public_key
            || x25519_public(peer) == bundle.one_time_prekey_public_key) ==> secrets_agree(
            session.dh_private,
            peer,
        )
}

/// Whether a payload is the first message that a bundle is answered with, and nothing more.
pub open spec fn is_initial_for(
    initial: InitialView,
    payload: Seq<u8>,
    bundle: BundleView,
    alice: AliceView,
    text: Seq<char>,
) -> bool {
    let fresh = (alice.session->0).dh_private;
    &&& is_sent(opened_with(bundle, fresh), initial.message, text)
    &&& initial.alice_initial_public_key == x25519_public(fresh)
    &&& initial.one_time_prekey_id == bundle.one_time_prekey_id
    &&& is_form_of::<InitialMessage>(payload, initial)
}

/// Whether a payload is the answer to a bundle.
pub open spec fn is_first_message(
    payload: Seq<u8>,
    bundle: BundleView,
    alice: AliceView,
    text: Seq<char>,
) -> bool {
    exists|initial: InitialView| #[trigger] is_initial_for(initial, payload, bundle, alice, text)
}

/// What is written with the bundle of a peer is read by that peer: through a relay as on
/// any other path.
pub proof fn law_first_message_is_read(
    alice: AliceView,
    alice_after: AliceView,
    bob: BobView,
    bundle: BundleView,
    payload: Seq<u8>,
    text: Seq<char>,
)
    requires
        is_bundle_of(bundle, bob),
        bob.signed_prekey_private_key.len() == 32,
        (bob.one_time_prekey->0).1.len() == 32,
        has_opened(alice, alice_after, bundle),
        is_first_message(payload, bundle, alice_after, text),
    ensures
        decoding::<InitialMessage>(payload) matches Some(initial) && bob.receiving_initial(
            initial,
        ).1 == Ok::<Seq<char>, CryptoError>(text),
{
    let initial = choose|initial: InitialView| #[trigger]
        is_initial_for(initial, payload, bundle, alice_after, text);
    let fresh = (alice_after.session->0).dh_private;
    assert(x25519_public(bob.signed_prekey_private_key) == bundle.signed_prekey_public_key);
    assert(x25519_public((bob.one_time_prekey->0).1) == bundle.one_time_prekey_public_key);
    law_initial_message_is_read(bundle, bob, fresh, initial, text);
}

/// What a peer answers through a relay, and the text that it read, if any.
pub struct RelayedAnswer {
    pub response: CipherMeshResponse,
    pub plaintext: Option<String>,
}

proof fn lemma_initial_is_short(bytes: Seq<u8>)
    requires
        decoding::<InitialMessage>(bytes) is Some,
    ensures
        (decoding::<InitialMessage>(bytes)->0).message.ciphertext.len() <= bytes.len(),
{
    let contents = choose|contents: InitialView|
        InitialMessage::valid(contents) && begins_with(
            bytes,
            #[trigger] InitialMessage::encoded(contents),
        );
    assert(begins_with(bytes, InitialMessage::encoded(contents)));
}

/// Answers a request through a relay. Once a first message was read, the answer to it is
/// the last thing that is owed.
pub fn answer_relayed(bob: &mut Bob, request: CipherMeshRequest) -> (answer: Result<
    RelayedAnswer,
    CryptoError,
>)
    requires
        request matches CipherMeshRequest::InitialMessage(payload) ==> payload@.len()
            <= MAX_PAYLOAD,
    ensures
        match request {
            CipherMeshRequest::PreKeyBundle => {
                &&& final(bob)@ == old(bob)@
                &&& answer is Ok <==> old(bob)@.one_time_prekey is Some
                &&& answer matches Err(error) ==> error == CryptoError::PreKeyUnavailable
                &&& answer matches Ok(answer) ==> {
                    &&& answer.plaintext is None
                    &&& answer.response matches CipherMeshResponse::PreKeyBundle(bytes)
                    &&& decoding::<PreKeyBundle>(bytes@) matches Some(bundle)
                    &&& bytes@ == PreKeyBundle::encoded(bundle)
                    &&& is_bundle_of(bundle, old(bob)@)
                }
            },
            CipherMeshRequest::InitialMessage(payload) => {
                &&& answer matches Ok(answer)
                &&& match decoding::<InitialMessage>(payload@) {
                    None => {
                        &&& final(bob)@ == old(bob)@
                        &&& answer.plaintext is None
                        &&& answer.response matches CipherMeshResponse::Error(error) && error@
                            == HandshakeError::Malformed.name()
                    },
                    Some(initial) => {
                        let (after, text) = old(bob)@.receiving_initial(initial);
                        &&& final(bob)@ == after
                        &&& match text {
                            Ok(text) => {
                                &&& answer.plaintext matches Some(shown) && shown@ == text
                                &&& answer.response matches CipherMeshResponse::Ack(ack) && ack@
                                    == utf8(TRANSPORT_ACK@)
                            },
                            Err(error) => {
                                &&& answer.plaintext is None
                                &&& answer.response matches CipherMeshResponse::Error(shown)
                                    && shown@ == error.name()
                            },
                        }
                    },
                }
            },
        },
{
    match request {
        CipherMeshRequest::PreKeyBundle => {
            let bundle = match bob.prekey_bundle() {
                Ok(bundle) => bundle,
                Err(error) => {
                    return Err(error);
                },
            };
            let bytes = encode(&bundle);
            Ok(
                RelayedAnswer {
                    response: CipherMeshResponse::PreKeyBundle(bytes),
                    plaintext: None,
                },
            )
        },
        CipherMeshRequest::InitialMessage(payload) => {
            let initial = match decode::<InitialMessage>(payload.as_slice()) {
                Some(initial) => initial,
                None => {
                    let refused = HandshakeError::Malformed;
                    return Ok(
                        RelayedAnswer {
                            response: CipherMeshResponse::Error(copy_text(refused.message())),
                            plaintext: None,
                        },
                    );
                },
            };
            proof {
                lemma_initial_is_short(payload@);
            }
            match bob.decrypt_initial_message(&initial) {
                Ok(plaintext) => Ok(
                    RelayedAnswer {
                        response: CipherMeshResponse::Ack(copy_bytes(TRANSPORT_ACK.as_bytes())),
                        plaintext: Some(plaintext),
                    },
                ),
                Err(error) => Ok(
                    RelayedAnswer {
                        response: CipherMeshResponse::Error(copy_text(error.message())),
                        plaintext: None,
                    },
                ),
            }
        },
    }
}

/// The search for where the application of a peer listens.
pub struct Discovery {
    pub target_peer_id: String,
    pub asked: bool,
}

impl Discovery {
    pub fn new(target_peer_id: &str) -> (discovery: Discovery)
        ensures
            discovery.target_peer_id@ == target_peer_id@,
            !discovery.asked,
    {
        Discovery { target_peer_id: copy_text(target_peer_id), asked: false }
    }

    /// A peer was seen. Answers whether to ask for the record of the peer that is looked
    /// for: when it was seen itself, and once.
    pub fn seen(&mut self, peer: &str) -> (ask: bool)
        ensures
            ask == (peer@ == old(self).target_peer_id@ && !old(self).asked),
            final(self).target_peer_id@ == old(self).target_peer_id@,
            final(self).asked == (old(self).asked || ask),
    {
        if same_text(peer, self.target_peer_id.as_str()) && !self.asked {
            self.asked = true;
            true
        } else {
            false
        }
    }
}

/// The first IP address that addresses of a peer give.
pub open spec fn first_known_ip(addresses: Seq<Seq<PartView>>) -> Option<IpView>
    decreases addresses.len(),
{
    if addresses.len() == 0 {
        None
    } else if first_ip(addresses[0]) is Some {
        first_ip(addresses[0])
    } else {
        first_known_ip(addresses.drop_first())
    }
}

/// The first IP address that the addresses of a peer give.
pub fn known_ip(addresses: &Vec<Address>) -> (ip: Option<IpAddress>)
    ensures
        option_view(ip) == first_known_ip(views(addresses@)),
{
    let mut i: usize = 0;
    assert(views(addresses@).skip(0) =~= views(addresses@));
    while i < addresses.len()
        invariant
            i <= addresses@.len(),
            first_known_ip(views(addresses@)) == first_known_ip(views(addresses@).skip(i as int)),
        decreases addresses@.len() - i,
    {
        assert(views(addresses@).skip(i as int)[0] == addresses@[i as int]@);
        assert(views(addresses@).skip(i as int).drop_first() =~= views(addresses@).skip(i + 1));
        if let Some(ip) = multiaddr_ip(&addresses[i]) {
            return Some(ip);
        }
        i += 1;
    }
    None
}

/// Why the record of a peer does not say where its application listens.
#[derive(Debug, Clone, Copy, PartialEq, Eq, Structural)]
pub enum RecordError {
    NotText,
    NotAnAddress,
    Address(AppAddressError),
}

impl RecordError {
    pub open spec fn name(self) -> Seq<char> {
        match self {
            RecordError::NotText => "discovered app address is not text"@,
            RecordError::NotAnAddress => "discovered app address is no multiaddr"@,
            RecordError::Address(error) => error.name(),
        }
    }

    pub fn message(&self) -> (text: &'static str)
        ensures
            text@ == self.name(),
    {
        match self {
            RecordError::NotText => "discovered app address is not text",
            RecordError::NotAnAddress => "discovered app address is no multiaddr",
            RecordError::Address(error) => error.message(),
        }
    }
}

/// Where the application of a peer listens, by its record and by the addresses at which
/// the peer was seen.
pub fn socket_from_record(record: Vec<u8>, addresses: &Vec<Address>) -> (socket: Result<
    SocketAddress,
    RecordError,
>)
    ensures
        match socket {
            Ok(socket) => {
                &&& valid_utf8(record@)
                &&& parsed_address(decode_utf8(record@)) is Some
                &&& app_socket(
                    parsed_address(decode_utf8(record@))->0,
                    first_known_ip(views(addresses@)),
                ) == Ok::<(IpView, u16), AppAddressError>((socket.ip@, socket.port))
            },
            Err(RecordError::NotText) => !valid_utf8(record@),
            Err(RecordError::NotAnAddress) => valid_utf8(record@) && parsed_address(
                decode_utf8(record@),
            ) is None,
            Err(RecordError::Address(error)) => {
                &&& valid_utf8(record@)
                &&& parsed_address(decode_utf8(record@)) is Some
                &&& app_socket(
                    parsed_address(decode_utf8(record@))->0,
                    first_known_ip(views(addresses@)),
                ) == Err::<(IpView, u16), AppAddressError>(error)
            },
        },
{
    let text = match String::from_utf8(record) {
        Ok(text) => text,
        Err(_) => {
            return Err(RecordError::NotText);
        },
    };
    let address = match Address::parse(text.as_str()) {
        Some(address) => address,
        None => {
            return Err(RecordError::NotAnAddress);
        },
    };
    match socket_from_app_multiaddr(&address, known_ip(addresses)) {
        Ok(socket) => Ok(socket),
        Err(error) => Err(RecordError::Address(error)),
    }
}

/// The name under which the record of a peer is found.
pub fn record_key(peer_id: &str) -> (key: String)
    ensures
        key@ == "/ciphermesh/quic/"@ + peer_id@,
{
    joined("/ciphermesh/quic/", peer_id)
}

/// The addresses that texts stand for, or the first text that is no address.
pub fn parse_bootstrap_peers(values: &[String]) -> (peers: Result<Vec<Address>, String>)
    ensures
        match peers {
            Ok(peers) => {
                &&& peers@.len() == values@.len()
                &&& forall|i: int|
                    0 <= i < values@.len() ==> parsed_address((#[trigger] values@[i])@) == Some(
                        peers@[i]@,
                    )
            },
            Err(value) => exists|i: int|
                {
                    &&& 0 <= i < values@.len()
                    &&& (#[trigger] values@[i])@ == value@
                    &&& parsed_address(values@[i]@) is None
                    &&& forall|j: int| 0 <= j < i ==> parsed_address((#[trigger] values@[j])@) is Some
                },
        },
{
    let mut peers: Vec<Address> = Vec::new();
    let mut i: usize = 0;
    while i < values.len()
        invariant
            i <= values@.len(),
            peers@.len() == i,
            forall|j: int|
                0 <= j < i ==> parsed_address((#[trigger] values@[j])@) == Some(peers@[j]@),
        decreases values@.len() - i,
    {
        match Address::parse(values[i].as_str()) {
            Some(address) => {
                peers.push(address);
            },
            None => {
                assert(values@[i as int]@ == values@[i as int]@);
                return Err(copy_text(values[i].as_str()));
            },
        }
        i += 1;
    }
    Ok(peers)
}

/// Why a peer id is missing.
#[derive(Debug, Clone, Copy, PartialEq, Eq, Structural)]
pub enum PeerIdError {
    Missing,
    Invalid,
}

impl PeerIdError {
    pub open spec fn name(self) -> Seq<char> {
        match self {
            PeerIdError::Missing => "missing Bob PeerId"@,
            PeerIdError::Invalid => "invalid Bob PeerId"@,
        }
    }

    pub fn message(&self) -> (text: &'static str)
        ensures
            text@ == self.name(),
    {
        match self {
            PeerIdError::Missing => "missing Bob PeerId",
            PeerIdError::Invalid => "invalid Bob PeerId",
        }
    }
}

/// The peer id that an argument stands for.
pub fn parse_peer_id(value: Option<&str>) -> (peer: Result<String, PeerIdError>)
    ensures
        match peer {
            Ok(peer) => value is Some && canonical_peer(value->0@) == Some(peer@),
            Err(PeerIdError::Missing) => value is None,
            Err(PeerIdError::Invalid) => value is Some && canonical_peer(value->0@) is None,
        },
{
    match value {
        None => Err(PeerIdError::Missing),
        Some(text) => match read_peer_id(text) {
            Some(peer) => Ok(peer),
            None => Err(PeerIdError::Invalid),
        },
    }
}

/// The peer that the address of a mailbox names.
pub fn peer_id_from_multiaddr(address: &Address) -> (peer: Option<String>)
    ensures
        match peer {
            Some(peer) => named_peer(address@) == Some(peer@),
            None => named_peer(address@) is None,
        },
{
    strip_p2p(address).1
}

/// The name of a peer's record is made of its peer id.
pub proof fn law_record_key_names_the_peer(peer_id: Seq<char>)
    ensures
        crate::text::has_part("/ciphermesh/quic/"@ + peer_id, peer_id),
{
    let prefix = "/ciphermesh/quic/"@;
    let text = prefix + peer_id;
    let at: int = prefix.len() as int;
    assert(text.subrange(at, at + peer_id.len()) =~= peer_id);
}

} // verus!
