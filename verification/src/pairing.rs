//! How two clients find each other: the side that issues an invite, the side that joins
//! by its code, and the chat that follows. Each step takes what the network reported and
//! says what to do next.

use crate::address::{
    canonical_peer, direct_address_from_listener, direct_address_text, direct_text, is_relayed,
    published, read_peer_id, sanitize_all, sanitize_direct_address, sanitized, sanitized_texts,
    Address, DirectPart, DirectPartView, IpAddress, IpView, Part, PartView,
};
use crate::bytes::{copy_text, same_text};
use crate::chat::{is_chat_back_command, leaves_chat};
use crate::service::{
    human_service_error, told_error, PairingRequest, PairingResponse, RequestView, ResponseView,
};
use crate::sorted::{duplicates, views};
use vstd::prelude::*;

verus! {

/// How long the setup of an invite and the wait for an answer may take.
pub const DISCOVERY_TIMEOUT_SECS: u64 = 30;

/// How long a direct connection is tried before the relay is used.
pub const DIRECT_DIAL_GRACE_SECS: u64 = 3;

/// How often a chat whose peer is gone tries to reach it.
pub const CHAT_RECONNECT_INTERVAL_SECS: u64 = 3;

/// How long an idle connection is kept: the longest time there is.
pub const CHAT_IDLE_CONNECTION_TIMEOUT_SECS: u64 = 0xffff_ffff_ffff_ffff;

pub const CHAT_IDLE_CONNECTION_TIMEOUT_NANOS: u32 = 999_999_999;

/// The name under which a client keeps the key of its network identity.
pub const LIBP2P_IDENTITY_SLOT: &'static str = "libp2p-installation";

/// Why pairing was given up.
#[derive(Debug, Clone, Copy, PartialEq, Eq, Structural)]
pub enum PairingFailure {
    ServiceUnavailable,
    InviteExpired,
    InviteRefused,
    ServiceBusy,
    NoConnection,
    InvalidPeer,
    NotAcknowledged,
    NotDelivered,
}

impl PairingFailure {
    pub open spec fn name(self) -> Seq<char> {
        match self {
            PairingFailure::ServiceUnavailable =>
                "Pairing service is unavailable. Please try again."@,
            PairingFailure::InviteExpired => "Invite expired. Please create a new invite."@,
            PairingFailure::InviteRefused => "Invite is invalid, expired, or already used."@,
            PairingFailure::ServiceBusy =>
                "Pairing service is temporarily unavailable. Please try again."@,
            PairingFailure::NoConnection =>
                "Could not connect. Please create a new invite and try again."@,
            PairingFailure::InvalidPeer => "service returned an invalid peer"@,
            PairingFailure::NotAcknowledged => "Pairing timed out. Please create a new invite."@,
            PairingFailure::NotDelivered => "Could not complete pairing"@,
        }
    }

    /// The sentence shown to the user.
    pub fn message(&self) -> (text: &'static str)
        ensures
            text@ == self.name(),
    {
        match self {
            PairingFailure::ServiceUnavailable =>
                "Pairing service is unavailable. Please try again.",
            PairingFailure::InviteExpired => "Invite expired. Please create a new invite.",
            PairingFailure::InviteRefused => "Invite is invalid, expired, or already used.",
            PairingFailure::ServiceBusy =>
                "Pairing service is temporarily unavailable. Please try again.",
            PairingFailure::NoConnection =>
                "Could not connect. Please create a new invite and try again.",
            PairingFailure::InvalidPeer => "service returned an invalid peer",
            PairingFailure::NotAcknowledged => "Pairing timed out. Please create a new invite.",
            PairingFailure::NotDelivered => "Could not complete pairing",
        }
    }
}

/// The failure that an error of the service amounts to.
pub open spec fn refusal_of(error: Seq<char>) -> PairingFailure {
    if told_error(error) == PairingFailure::InviteRefused.name() {
        PairingFailure::InviteRefused
    } else {
        PairingFailure::ServiceBusy
    }
}

fn service_refusal(error: &str) -> (failure: PairingFailure)
    ensures
        failure == refusal_of(error@),
        failure.name() == told_error(error@),
{
    if same_text(human_service_error(error), "Invite is invalid, expired, or already used.") {
        PairingFailure::InviteRefused
    } else {
        PairingFailure::ServiceBusy
    }
}

/// The side that issues an invite, until a friend has joined.
pub struct HostInvite {
    pub service_peer_id: String,
    pub code_hash: String,
    pub expires_at_unix_secs: u64,
    pub direct_addresses: Vec<String>,
    pub registered: bool,
    pub registration_sent: bool,
    pub reservation_confirmed: bool,
    pub direct_listener_ready: bool,
}

#[verifier::ext_equal]
pub struct HostView {
    pub service_peer_id: Seq<char>,
    pub code_hash: Seq<char>,
    pub expires_at_unix_secs: u64,
    pub direct_addresses: Seq<Seq<char>>,
    pub registered: bool,
    pub registration_sent: bool,
    pub reservation_confirmed: bool,
    pub direct_listener_ready: bool,
}

impl View for HostInvite {
    type V = HostView;

    open spec fn view(&self) -> HostView {
        HostView {
            service_peer_id: self.service_peer_id@,
            code_hash: self.code_hash@,
            expires_at_unix_secs: self.expires_at_unix_secs,
            direct_addresses: views(self.direct_addresses@),
            registered: self.registered,
            registration_sent: self.registration_sent,
            reservation_confirmed: self.reservation_confirmed,
            direct_listener_ready: self.direct_listener_ready,
        }
    }
}

/// What an answer of the service means for the side that issues an invite.
#[derive(Debug, Clone, Copy, PartialEq, Eq, Structural)]
pub enum HostNews {
    Nothing,
    /// The invite can be joined: its code is shown.
    ShowCode,
    Fail(PairingFailure),
}

/// What becomes of a request of another peer at the side that issues an invite.
#[derive(Debug, Clone, Copy, PartialEq, Eq, Structural)]
pub enum HostReply {
    Ignore,
    SendBundle,
    OpenInitialMessage,
    /// The request is answered with an error.
    Refuse,
}

/// What a request is answered that comes before pairing is complete.
pub const PAIRING_INCOMPLETE: &'static str = "pairing has not completed";

/// The direct address that a listener on `address` adds.
pub open spec fn listener_address(address: Seq<PartView>, lan: Option<IpView>) -> Option<
    Seq<DirectPartView>,
> {
    if is_relayed(address) {
        None
    } else {
        published(address, lan)
    }
}

/// A list with a text in it, at its end if it was not there yet.
pub open spec fn with_text(texts: Seq<Seq<char>>, text: Seq<char>) -> Seq<Seq<char>> {
    if texts.contains(text) {
        texts
    } else {
        texts.push(text)
    }
}

impl HostView {
    /// A registration is under way only with a reservation and a direct address, if any is
    /// to be had.
    pub open spec fn is_sound(self) -> bool {
        self.registration_sent ==> self.reservation_confirmed && self.direct_listener_ready
    }

    /// Whether a direct address that comes up now completes what a registration needs.
    pub open spec fn registers_on_listener(self) -> bool {
        self.reservation_confirmed && !self.registration_sent
    }

    pub open spec fn on_listener(self, direct: Option<Seq<DirectPartView>>) -> HostView {
        match direct {
            Some(parts) => HostView {
                direct_addresses: with_text(self.direct_addresses, direct_text(parts)),
                direct_listener_ready: true,
                registration_sent: self.registration_sent || self.registers_on_listener(),
                ..self
            },
            None => self,
        }
    }

    pub open spec fn on_relay_closed(self) -> HostView {
        HostView {
            reservation_confirmed: false,
            registration_sent: false,
            registered: false,
            ..self
        }
    }

    /// Whether a reservation given now leads to a registration.
    pub open spec fn registers_on_reservation(self, relay: Seq<char>, renewal: bool) -> bool {
        &&& relay == self.service_peer_id
        &&& !self.registered
        &&& !self.registration_sent
        &&& !renewal
        &&& self.direct_listener_ready
    }

    pub open spec fn on_reservation(self, relay: Seq<char>, renewal: bool) -> HostView {
        if relay == self.service_peer_id {
            HostView {
                reservation_confirmed: true,
                registration_sent: self.registration_sent || self.registers_on_reservation(
                    relay,
                    renewal,
                ),
                ..self
            }
        } else {
            self
        }
    }

    pub open spec fn news(self, peer: Seq<char>, response: ResponseView) -> HostNews {
        if peer != self.service_peer_id {
            HostNews::Nothing
        } else {
            match response {
                ResponseView::Registered => if self.registered {
                    HostNews::Nothing
                } else {
                    HostNews::ShowCode
                },
                ResponseView::Error(error) => HostNews::Fail(refusal_of(error)),
                _ => HostNews::Nothing,
            }
        }
    }

    pub open spec fn on_response(self, peer: Seq<char>, response: ResponseView) -> HostView {
        HostView {
            registered: self.registered || (peer == self.service_peer_id && response
                == ResponseView::Registered),
            ..self
        }
    }

    pub open spec fn reply(self, peer: Seq<char>, request: RequestView) -> HostReply {
        if !self.registered || peer == self.service_peer_id {
            HostReply::Ignore
        } else {
            match request {
                RequestView::PreKeyBundle => HostReply::SendBundle,
                RequestView::InitialMessage(_) => HostReply::OpenInitialMessage,
                _ => HostReply::Refuse,
            }
        }
    }

    pub open spec fn registration(self) -> RequestView {
        RequestView::RegisterInvite {
            code_hash: self.code_hash,
            expires_at_unix_secs: self.expires_at_unix_secs,
            direct_addresses: self.direct_addresses,
        }
    }
}

fn holds_text(texts: &Vec<String>, text: &str) -> (found: bool)
    ensures
        found == views(texts@).contains(text@),
{
    let mut i: usize = 0;
    while i < texts.len()
        invariant
            i <= texts@.len(),
            forall|j: int| 0 <= j < i ==> (#[trigger] views(texts@)[j]) != text@,
        decreases texts@.len() - i,
    {
        if same_text(texts[i].as_str(), text) {
            assert(views(texts@)[i as int] == text@);
            return true;
        }
        i += 1;
    }
    false
}

fn leads_through_relay(address: &Address) -> (answer: bool)
    ensures
        answer == is_relayed(address@),
{
    let mut i: usize = 0;
    while i < address.parts.len()
        invariant
            i <= address.parts@.len(),
            forall|j: int| 0 <= j < i ==> !(#[trigger] address@[j] is P2pCircuit),
        decreases address.parts@.len() - i,
    {
        if let Part::P2pCircuit = &address.parts[i] {
            assert(address@[i as int] is P2pCircuit);
            return true;
        }
        i += 1;
    }
    false
}

impl HostInvite {
    /// An invite that is about to be registered. Where a direct listener was asked for, the
    /// registration waits for its address.
    pub fn new(
        service_peer_id: &str,
        code_hash: &str,
        expires_at_unix_secs: u64,
        direct_listener_pending: bool,
    ) -> (host: HostInvite)
        ensures
            host@ == (HostView {
                service_peer_id: service_peer_id@,
                code_hash: code_hash@,
                expires_at_unix_secs,
                direct_addresses: Seq::empty(),
                registered: false,
                registration_sent: false,
                reservation_confirmed: false,
                direct_listener_ready: !direct_listener_pending,
            }),
            host@.is_sound(),
    {
        let host = HostInvite {
            service_peer_id: copy_text(service_peer_id),
            code_hash: copy_text(code_hash),
            expires_at_unix_secs,
            direct_addresses: Vec::new(),
            registered: false,
            registration_sent: false,
            reservation_confirmed: false,
            direct_listener_ready: !direct_listener_pending,
        };
        assert(host@.direct_addresses =~= Seq::<Seq<char>>::empty());
        host
    }

    /// The request that registers the invite.
    pub fn registration(&self) -> (request: PairingRequest)
        ensures
            request@ == self@.registration(),
    {
        PairingRequest::RegisterInvite {
            code_hash: self.code_hash.clone(),
            expires_at_unix_secs: self.expires_at_unix_secs,
            direct_addresses: duplicates(&self.direct_addresses),
        }
    }

    /// The client listens on `address`, with the IP address `lan` in its network. Answers
    /// with the direct address to publish, and whether to register the invite now.
    pub fn listening_on(&mut self, address: &Address, lan: Option<IpAddress>) -> (added: Option<
        (Vec<DirectPart>, bool),
    >)
        ensures
            ({
                let lan = match lan {
                    Some(lan) => Some(lan@),
                    None => None,
                };
                &&& final(self)@ == old(self)@.on_listener(listener_address(address@, lan))
                &&& match added {
                    Some((parts, register)) => {
                        &&& listener_address(address@, lan) == Some(views(parts@))
                        &&& register == old(self)@.registers_on_listener()
                    },
                    None => listener_address(address@, lan) is None,
                }
            }),
            old(self)@.is_sound() ==> final(self)@.is_sound(),
    {
        if leads_through_relay(address) {
            return None;
        }
        match direct_address_from_listener(address, lan) {
            None => None,
            Some(parts) => {
                let text = direct_address_text(&parts);
                if !holds_text(&self.direct_addresses, text.as_str()) {
                    let ghost before = self.direct_addresses@;
                    self.direct_addresses.push(text);
                    assert(views(self.direct_addresses@) =~= views(before).push(text@));
                }
                self.direct_listener_ready = true;
                let register = self.reservation_confirmed && !self.registration_sent;
                if register {
                    self.registration_sent = true;
                }
                Some((parts, register))
            },
        }
    }

    /// The listener at the relay was closed: the reservation is asked for again. Answers
    /// whether the invite had been on show.
    pub fn relay_listener_closed(&mut self) -> (was_shown: bool)
        ensures
            final(self)@ == old(self)@.on_relay_closed(),
            was_shown == old(self)@.registered,
            final(self)@.is_sound(),
    {
        let was_shown = self.registered;
        self.reservation_confirmed = false;
        self.registration_sent = false;
        self.registered = false;
        was_shown
    }

    /// A relay gave or renewed a reservation. Answers whether to register the invite now.
    pub fn reservation_accepted(&mut self, relay_peer_id: &str, renewal: bool) -> (register: bool)
        ensures
            final(self)@ == old(self)@.on_reservation(relay_peer_id@, renewal),
            register == old(self)@.registers_on_reservation(relay_peer_id@, renewal),
            old(self)@.is_sound() ==> final(self)@.is_sound(),
    {
        if !same_text(relay_peer_id, self.service_peer_id.as_str()) {
            return false;
        }
        self.reservation_confirmed = true;
        let register = !self.registered && !self.registration_sent && !renewal
            && self.direct_listener_ready;
        if register {
            self.registration_sent = true;
        }
        register
    }

    /// A peer answered a request.
    pub fn response(&mut self, peer: &str, response: &PairingResponse) -> (news: HostNews)
        ensures
            final(self)@ == old(self)@.on_response(peer@, response@),
            news == old(self)@.news(peer@, response@),
            old(self)@.is_sound() ==> final(self)@.is_sound(),
    {
        if !same_text(peer, self.service_peer_id.as_str()) {
            return HostNews::Nothing;
        }
        match response {
            PairingResponse::Registered => {
                if self.registered {
                    HostNews::Nothing
                } else {
                    self.registered = true;
                    HostNews::ShowCode
                }
            },
            PairingResponse::Error(error) => HostNews::Fail(service_refusal(error.as_str())),
            _ => HostNews::Nothing,
        }
    }

    /// What becomes of a request of another peer.
    pub fn request(&self, peer: &str, request: &PairingRequest) -> (reply: HostReply)
        ensures
            reply == self@.reply(peer@, request@),
    {
        if !self.registered || same_text(peer, self.service_peer_id.as_str()) {
            return HostReply::Ignore;
        }
        match request {
            PairingRequest::PreKeyBundle => HostReply::SendBundle,
            PairingRequest::InitialMessage(_) => HostReply::OpenInitialMessage,
            _ => HostReply::Refuse,
        }
    }

    /// The time for the setup is up, which matters only before the invite is registered.
    pub fn setup_timed_out(&self) -> (failure: Option<PairingFailure>)
        ensures
            failure == if self@.registered {
                None::<PairingFailure>
            } else {
                Some(PairingFailure::ServiceUnavailable)
            },
    {
        if self.registered {
            None
        } else {
            Some(PairingFailure::ServiceUnavailable)
        }
    }

    /// The time of the invite is up, which matters only once it is registered.
    pub fn invite_timed_out(&self) -> (failure: Option<PairingFailure>)
        ensures
            failure == if self@.registered {
                Some(PairingFailure::InviteExpired)
            } else {
                None::<PairingFailure>
            },
    {
        if self.registered {
            Some(PairingFailure::InviteExpired)
        } else {
            None
        }
    }
}

/// The side that joins by a code, until it has the other side's keys.
pub struct JoinInvite {
    pub service_peer_id: String,
    pub code_hash: String,
    pub lookup_sent: bool,
    pub target_peer_id: Option<String>,
    pub requested_bundle: bool,
    pub relay_started: bool,
    pub fallback_pending: bool,
}

#[verifier::ext_equal]
pub struct JoinView {
    pub service_peer_id: Seq<char>,
    pub code_hash: Seq<char>,
    pub lookup_sent: bool,
    pub target_peer_id: Option<Seq<char>>,
    pub requested_bundle: bool,
    pub relay_started: bool,
    pub fallback_pending: bool,
}

impl View for JoinInvite {
    type V = JoinView;

    open spec fn view(&self) -> JoinView {
        JoinView {
            service_peer_id: self.service_peer_id@,
            code_hash: self.code_hash@,
            lookup_sent: self.lookup_sent,
            target_peer_id: match self.target_peer_id {
                Some(peer) => Some(peer@),
                None => None,
            },
            requested_bundle: self.requested_bundle,
            relay_started: self.relay_started,
            fallback_pending: self.fallback_pending,
        }
    }
}

/// What to do once a connection stands.
#[derive(Debug, Clone, Copy, PartialEq, Eq, Structural)]
pub enum JoinStep {
    Nothing,
    LookUpInvite,
    RequestBundle,
}

/// What an answer means for the side that joins.
#[derive(Debug, Clone, PartialEq, Eq)]
pub enum JoinNews {
    Nothing,
    /// The peer is dialled at these direct addresses; the relay is used later.
    DialDirect(Vec<String>),
    DialThroughRelay,
    /// The other side's keys came in.
    Bundle,
    Fail(PairingFailure),
}

#[verifier::ext_equal]
pub enum JoinNewsView {
    Nothing,
    DialDirect(Seq<Seq<char>>),
    DialThroughRelay,
    Bundle,
    Fail(PairingFailure),
}

impl View for JoinNews {
    type V = JoinNewsView;

    open spec fn view(&self) -> JoinNewsView {
        match *self {
            JoinNews::Nothing => JoinNewsView::Nothing,
            JoinNews::DialDirect(addresses) => JoinNewsView::DialDirect(views(addresses@)),
            JoinNews::DialThroughRelay => JoinNewsView::DialThroughRelay,
            JoinNews::Bundle => JoinNewsView::Bundle,
            JoinNews::Fail(failure) => JoinNewsView::Fail(failure),
        }
    }
}

impl JoinView {
    /// The relay is used later only where it is not in use.
    pub open spec fn is_sound(self) -> bool {
        self.fallback_pending ==> !self.relay_started && self.target_peer_id is Some
    }

    pub open spec fn step_on_connection(self, peer: Seq<char>, relayed: bool) -> JoinStep {
        if peer == self.service_peer_id && !relayed && !self.lookup_sent {
            JoinStep::LookUpInvite
        } else if self.target_peer_id == Some(peer) && !self.requested_bundle {
            JoinStep::RequestBundle
        } else {
            JoinStep::Nothing
        }
    }

    pub open spec fn on_connection(self, peer: Seq<char>, relayed: bool) -> JoinView {
        match self.step_on_connection(peer, relayed) {
            JoinStep::LookUpInvite => JoinView { lookup_sent: true, ..self },
            JoinStep::RequestBundle => JoinView { requested_bundle: true, ..self },
            JoinStep::Nothing => self,
        }
    }

    pub open spec fn news(self, peer: Seq<char>, response: ResponseView) -> JoinNewsView {
        if peer == self.service_peer_id {
            match response {
                ResponseView::Resolved { peer_id, direct_addresses } => if canonical_peer(
                    peer_id,
                ) is None {
                    JoinNewsView::Fail(PairingFailure::InvalidPeer)
                } else if sanitized_texts(direct_addresses).len() > 0 {
                    JoinNewsView::DialDirect(sanitized_texts(direct_addresses))
                } else {
                    JoinNewsView::DialThroughRelay
                },
                ResponseView::Error(error) => JoinNewsView::Fail(refusal_of(error)),
                _ => JoinNewsView::Nothing,
            }
        } else if self.target_peer_id == Some(peer) {
            match response {
                ResponseView::PreKeyBundle(_) => JoinNewsView::Bundle,
                ResponseView::Error(error) => JoinNewsView::Fail(refusal_of(error)),
                _ => JoinNewsView::Nothing,
            }
        } else {
            JoinNewsView::Nothing
        }
    }

    pub open spec fn on_response(self, peer: Seq<char>, response: ResponseView) -> JoinView {
        if peer == self.service_peer_id && response is Resolved && canonical_peer(
            response->peer_id,
        ) is Some {
            let target = JoinView { target_peer_id: canonical_peer(response->peer_id), ..self };
            if sanitized_texts(response->direct_addresses).len() > 0 {
                JoinView { fallback_pending: !self.relay_started, ..target }
            } else {
                JoinView { relay_started: true, fallback_pending: false, ..target }
            }
        } else {
            self
        }
    }

    pub open spec fn falls_back(self) -> bool {
        !self.relay_started && self.target_peer_id is Some
    }

    pub open spec fn on_fallback(self) -> JoinView {
        if self.falls_back() {
            JoinView { relay_started: true, fallback_pending: false, ..self }
        } else {
            self
        }
    }
}

impl JoinInvite {
    pub fn new(service_peer_id: &str, code_hash: &str) -> (join: JoinInvite)
        ensures
            join@ == (JoinView {
                service_peer_id: service_peer_id@,
                code_hash: code_hash@,
                lookup_sent: false,
                target_peer_id: None,
                requested_bundle: false,
                relay_started: false,
                fallback_pending: false,
            }),
            join@.is_sound(),
    {
        JoinInvite {
            service_peer_id: copy_text(service_peer_id),
            code_hash: copy_text(code_hash),
            lookup_sent: false,
            target_peer_id: None,
            requested_bundle: false,
            relay_started: false,
            fallback_pending: false,
        }
    }

    /// The request that looks the invite up.
    pub fn lookup(&self) -> (request: PairingRequest)
        ensures
            request@ == (RequestView::ResolveInvite { code_hash: self@.code_hash }),
    {
        PairingRequest::ResolveInvite { code_hash: self.code_hash.clone() }
    }

    /// Whether a peer is the one that issued the invite.
    pub fn is_target(&self, peer: &str) -> (answer: bool)
        ensures
            answer == (self@.target_peer_id == Some(peer@)),
    {
        match &self.target_peer_id {
            Some(target) => same_text(target.as_str(), peer),
            None => false,
        }
    }

    /// A connection to a peer stands, through a relay or not.
    pub fn connected(&mut self, peer: &str, relayed: bool) -> (step: JoinStep)
        ensures
            final(self)@ == old(self)@.on_connection(peer@, relayed),
            step == old(self)@.step_on_connection(peer@, relayed),
            old(self)@.is_sound() ==> final(self)@.is_sound(),
    {
        if same_text(peer, self.service_peer_id.as_str()) && !relayed && !self.lookup_sent {
            self.lookup_sent = true;
            return JoinStep::LookUpInvite;
        }
        if self.is_target(peer) && !self.requested_bundle {
            self.requested_bundle = true;
            return JoinStep::RequestBundle;
        }
        JoinStep::Nothing
    }

    /// A peer answered a request.
    pub fn response(&mut self, peer: &str, response: &PairingResponse) -> (news: JoinNews)
        ensures
            final(self)@ == old(self)@.on_response(peer@, response@),
            news@ == old(self)@.news(peer@, response@),
            old(self)@.is_sound() ==> final(self)@.is_sound(),
    {
        if same_text(peer, self.service_peer_id.as_str()) {
            match response {
                PairingResponse::Resolved { peer_id, direct_addresses } => {
                    match read_peer_id(peer_id.as_str()) {
                        None => JoinNews::Fail(PairingFailure::InvalidPeer),
                        Some(target) => {
                            self.target_peer_id = Some(target);
                            let direct = sanitize_all(direct_addresses);
                            if direct.len() > 0 {
                                self.fallback_pending = !self.relay_started;
                                JoinNews::DialDirect(direct)
                            } else {
                                self.relay_started = true;
                                self.fallback_pending = false;
                                JoinNews::DialThroughRelay
                            }
                        },
                    }
                },
                PairingResponse::Error(error) => JoinNews::Fail(service_refusal(error.as_str())),
                _ => JoinNews::Nothing,
            }
        } else if self.is_target(peer) {
            match response {
                PairingResponse::PreKeyBundle(_) => JoinNews::Bundle,
                PairingResponse::Error(error) => JoinNews::Fail(service_refusal(error.as_str())),
                _ => JoinNews::Nothing,
            }
        } else {
            JoinNews::Nothing
        }
    }

    fn fall_back(&mut self) -> (dial_relay: bool)
        ensures
            final(self)@ == old(self)@.on_fallback(),
            dial_relay == old(self)@.falls_back(),
            old(self)@.is_sound() ==> final(self)@.is_sound(),
    {
        if !self.relay_started && self.target_peer_id.is_some() {
            self.relay_started = true;
            self.fallback_pending = false;
            true
        } else {
            false
        }
    }

    /// The time for a direct connection is up. Answers whether to dial through the relay.
    pub fn grace_elapsed(&mut self) -> (dial_relay: bool)
        ensures
            final(self)@ == old(self)@.on_fallback(),
            dial_relay == old(self)@.falls_back(),
            old(self)@.is_sound() ==> final(self)@.is_sound(),
    {
        self.fall_back()
    }

    /// Dialling a peer failed. Answers whether to dial through the relay: only the failure
    /// of the issuer of the invite counts, and only while the relay is not in use.
    pub fn dial_failed(&mut self, peer: &str) -> (dial_relay: bool)
        ensures
            final(self)@ == if old(self)@.target_peer_id == Some(peer@) {
                old(self)@.on_fallback()
            } else {
                old(self)@
            },
            dial_relay == (old(self)@.target_peer_id == Some(peer@) && old(self)@.falls_back()),
            old(self)@.is_sound() ==> final(self)@.is_sound(),
    {
        if self.is_target(peer) {
            self.fall_back()
        } else {
            false
        }
    }

    /// The direct address to try for a peer that was found in the local network: only for
    /// the issuer of the invite.
    pub fn found_nearby(&self, peer: &str, address: &Address) -> (direct: Option<Vec<DirectPart>>)
        ensures
            match direct {
                Some(parts) => {
                    &&& self@.target_peer_id == Some(peer@)
                    &&& sanitized(address@) == Some(views(parts@))
                },
                None => self@.target_peer_id != Some(peer@) || sanitized(address@) is None,
            },
    {
        if self.is_target(peer) {
            sanitize_direct_address(address)
        } else {
            None
        }
    }

    /// The time for pairing is up.
    pub fn timed_out(&self) -> (failure: PairingFailure)
        ensures
            failure == PairingFailure::NoConnection,
    {
        PairingFailure::NoConnection
    }
}

/// What the side that joins does while it waits for its first message to be confirmed.
#[derive(Debug, Clone, Copy, PartialEq, Eq, Structural)]
pub enum AckStep {
    KeepWaiting,
    Connected,
}

/// Whether an answer confirms the first message to the peer that issued the invite.
pub fn join_acknowledged(target: &str, peer: &str, response: &PairingResponse) -> (step: AckStep)
    ensures
        step == if peer@ == target@ && response@ is Ack {
            AckStep::Connected
        } else {
            AckStep::KeepWaiting
        },
{
    match response {
        PairingResponse::Ack(_) => if same_text(peer, target) {
            AckStep::Connected
        } else {
            AckStep::KeepWaiting
        },
        _ => AckStep::KeepWaiting,
    }
}

/// The chat of two paired clients, as one of them sees the other.
pub struct PairingChat {
    pub target_peer_id: String,
    pub online: bool,
}

#[verifier::ext_equal]
pub struct ChatView {
    pub target_peer_id: Seq<char>,
    pub online: bool,
}

impl View for PairingChat {
    type V = ChatView;

    open spec fn view(&self) -> ChatView {
        ChatView { target_peer_id: self.target_peer_id@, online: self.online }
    }
}

/// What becomes of a line typed into a chat.
#[derive(Debug, Clone, Copy, PartialEq, Eq, Structural)]
pub enum ChatLine {
    Leave,
    Nothing,
    /// The peer is away: the message waits for it.
    Queue,
    Send,
}

/// What becomes of a chat when a connection is closed.
#[derive(Debug, Clone, Copy, PartialEq, Eq, Structural)]
pub struct ClosedStep {
    /// The peer has just gone offline.
    pub announce: bool,
    /// The peer is dialled again.
    pub reconnect: bool,
}

/// Whether the last connection to the peer of a chat was closed.
pub open spec fn lost_all_connections(peer: Seq<char>, target: Seq<char>, remaining: u32) -> bool {
    peer == target && remaining == 0
}

/// Whether the last connection to the peer of a chat was closed.
pub fn peer_lost_all_connections(peer_id: &str, target: &str, num_established: u32) -> (answer:
    bool)
    ensures
        answer == lost_all_connections(peer_id@, target@, num_established),
{
    num_established == 0 && same_text(peer_id, target)
}

impl ChatView {
    pub open spec fn line(self, line: Seq<char>) -> ChatLine {
        if leaves_chat(line) {
            ChatLine::Leave
        } else if line.len() == 0 {
            ChatLine::Nothing
        } else if self.online {
            ChatLine::Send
        } else {
            ChatLine::Queue
        }
    }

    /// Whether the peer has just come back.
    pub open spec fn comes_back(self, peer: Seq<char>) -> bool {
        peer == self.target_peer_id && !self.online
    }

    pub open spec fn on_connection(self, peer: Seq<char>) -> ChatView {
        ChatView { online: self.online || peer == self.target_peer_id, ..self }
    }

    pub open spec fn on_closed(self, peer: Seq<char>, remaining: u32) -> ChatView {
        ChatView {
            online: self.online && !lost_all_connections(peer, self.target_peer_id, remaining),
            ..self
        }
    }
}

impl PairingChat {
    /// The chat with a peer that has just been paired with.
    pub fn new(target_peer_id: &str) -> (chat: PairingChat)
        ensures
            chat@ == (ChatView { target_peer_id: target_peer_id@, online: true }),
    {
        PairingChat { target_peer_id: copy_text(target_peer_id), online: true }
    }

    /// What becomes of a line typed into the chat.
    pub fn line(&self, line: &str) -> (step: ChatLine)
        ensures
            step == self@.line(line@),
    {
        if is_chat_back_command(line) {
            return ChatLine::Leave;
        }
        proof {
            reveal_strlit("");
            if line@.len() == 0 {
                assert(line@ =~= ""@);
            }
        }
        if same_text(line, "") {
            return ChatLine::Nothing;
        }
        if self.online {
            ChatLine::Send
        } else {
            ChatLine::Queue
        }
    }

    /// A connection to a peer stands. Answers whether the chat's peer has come back, so
    /// that the messages that wait for it are sent.
    pub fn connected(&mut self, peer: &str) -> (came_back: bool)
        ensures
            final(self)@ == old(self)@.on_connection(peer@),
            came_back == old(self)@.comes_back(peer@),
    {
        if same_text(peer, self.target_peer_id.as_str()) && !self.online {
            self.online = true;
            true
        } else {
            false
        }
    }

    /// A connection to a peer was closed; so many to it remain.
    pub fn closed(&mut self, peer: &str, remaining: u32) -> (step: ClosedStep)
        ensures
            final(self)@ == old(self)@.on_closed(peer@, remaining),
            step.reconnect == lost_all_connections(peer@, old(self)@.target_peer_id, remaining),
            step.announce == (old(self)@.online && !final(self)@.online),
    {
        if peer_lost_all_connections(peer, self.target_peer_id.as_str(), remaining) {
            let announce = self.online;
            self.online = false;
            ClosedStep { announce, reconnect: true }
        } else {
            ClosedStep { announce: false, reconnect: false }
        }
    }

    /// Whether to dial the peer when the time for it has come, or when a relay has given
    /// a reservation: only while it is away.
    pub fn wants_reconnect(&self) -> (answer: bool)
        ensures
            answer == !self@.online,
    {
        !self.online
    }
}

/// An invite is registered only with a confirmed reservation, at most once for each, and
/// never before the direct listener that was asked for has an address.
pub proof fn law_registration_follows_reservation(
    host: HostView,
    direct: Seq<DirectPartView>,
    relay: Seq<char>,
    renewal: bool,
)
    requires
        host.is_sound(),
    ensures
        host.registers_on_listener() ==> {
            &&& host.reservation_confirmed
            &&& host.on_listener(Some(direct)).direct_listener_ready
            &&& !host.on_listener(Some(direct)).registers_on_listener()
        },
        host.registers_on_reservation(relay, renewal) ==> {
            &&& host.on_reservation(relay, renewal).reservation_confirmed
            &&& host.direct_listener_ready
            &&& !host.on_reservation(relay, renewal).registers_on_reservation(relay, renewal)
        },
        host.on_relay_closed().registration_sent == false,
{
}

/// After a lost reservation the next one registers the invite again.
pub proof fn law_lost_reservation_registers_again(host: HostView)
    requires
        host.direct_listener_ready,
    ensures
        host.on_relay_closed().registers_on_reservation(host.service_peer_id, false),
{
}

/// No request of another peer is served before the invite is registered, and none of the
/// service at any time.
pub proof fn law_requests_wait_for_registration(host: HostView, peer: Seq<char>, request: RequestView)
    ensures
        host.reply(peer, request) != HostReply::Ignore ==> host.registered && peer
            != host.service_peer_id,
{
}

/// The relay is dialled at most once: after it was chosen neither the end of the grace
/// time nor a failed direct dial leads there again, so a working relay connection is left
/// alone.
pub proof fn law_relay_is_dialled_once(join: JoinView, peer: Seq<char>)
    requires
        join.target_peer_id is Some,
    ensures
        join.on_fallback().relay_started,
        !join.on_fallback().falls_back(),
        join.relay_started ==> join.on_fallback() == join,
{
}

/// A direct address is tried before the relay: where one is left after sanitizing, the
/// answer of the service does not start the relay.
pub proof fn law_direct_goes_first(join: JoinView, response: ResponseView)
    requires
        response is Resolved,
        canonical_peer(response->peer_id) is Some,
        sanitized_texts(response->direct_addresses).len() > 0,
        !join.relay_started,
    ensures
        ({
            let next = join.on_response(join.service_peer_id, response);
            &&& join.news(join.service_peer_id, response) is DialDirect
            &&& !next.relay_started
            &&& next.fallback_pending
            &&& next.falls_back()
        }),
{
}

/// The invite is looked up once and the keys of its issuer are asked for once.
pub proof fn law_join_asks_once(join: JoinView, peer: Seq<char>, relayed: bool)
    ensures
        ({
            let next = join.on_connection(peer, relayed);
            &&& join.step_on_connection(peer, relayed) == JoinStep::LookUpInvite
                ==> next.step_on_connection(peer, relayed) != JoinStep::LookUpInvite
            &&& join.step_on_connection(peer, relayed) == JoinStep::RequestBundle
                ==> next.step_on_connection(peer, relayed) != JoinStep::RequestBundle
        }),
{
}

/// A chat goes offline only with the last connection to its own peer, and comes back
/// online with the next one.
pub proof fn law_offline_only_after_last_connection(
    chat: ChatView,
    peer: Seq<char>,
    remaining: u32,
)
    requires
        chat.online,
    ensures
        !chat.on_closed(peer, remaining).online <==> peer == chat.target_peer_id && remaining == 0,
        chat.on_closed(peer, remaining).on_connection(chat.target_peer_id).online,
        !chat.on_closed(peer, remaining).online ==> chat.on_closed(peer, remaining).comes_back(
            chat.target_peer_id,
        ),
{
}

} // verus!
