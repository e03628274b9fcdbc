//! The public pairing service: it answers for short-lived invites of peers that hold a
//! relay reservation.

use crate::address::{sanitize_all, sanitized_texts};
use crate::bytes::{copy_text, same_text};
use crate::invite::INVITE_TTL_SECS;
use crate::sorted::{duplicates, filtered, keys_where, map_where, views, Record, SortedMap};
use crate::text::{contains_text, has_part};
use vstd::prelude::*;

verus! {

pub const PAIRING_PROTOCOL: &'static str = "/ciphermesh/pairing/1.0.0";

/// The environment variable that names another pairing service.
pub const PAIRING_SERVICE_ENV: &'static str = "CIPHERMESH_RENDEZVOUS";

/// The peer id of the built-in pairing service.
pub const DEFAULT_PAIRING_SERVICE_PEER_ID: &'static str =
    "12D3KooWFzBAJJmKxJ3s3qB95CCDgnQX6abfbTwUP7LGe3vD1W7f";

/// The address of the built-in pairing service.
pub const DEFAULT_PAIRING_SERVICE_ADDR: &'static str =
    "/dns4/rendezvous.ciphermesh.example/tcp/4001/p2p/12D3KooWFzBAJJmKxJ3s3qB95CCDgnQX6abfbTwUP7LGe3vD1W7f";

/// Where the service keeps its permanent key.
pub const DEFAULT_SERVICE_IDENTITY_PATH: &'static str = "/var/lib/ciphermesh/service.key";

/// What a peer asks of the service or of another peer.
#[derive(Debug, Clone, PartialEq, Eq)]
pub enum PairingRequest {
    RegisterInvite {
        code_hash: String,
        expires_at_unix_secs: u64,
        direct_addresses: Vec<String>,
    },
    ResolveInvite { code_hash: String },
    PreKeyBundle,
    InitialMessage(Vec<u8>),
    ChatFrame(Vec<u8>),
}

#[verifier::ext_equal]
pub enum RequestView {
    RegisterInvite {
        code_hash: Seq<char>,
        expires_at_unix_secs: u64,
        direct_addresses: Seq<Seq<char>>,
    },
    ResolveInvite { code_hash: Seq<char> },
    PreKeyBundle,
    InitialMessage(Seq<u8>),
    ChatFrame(Seq<u8>),
}

impl View for PairingRequest {
    type V = RequestView;

    open spec fn view(&self) -> RequestView {
        match *self {
            PairingRequest::RegisterInvite { code_hash, expires_at_unix_secs, direct_addresses } =>
                RequestView::RegisterInvite {
                    code_hash: code_hash@,
                    expires_at_unix_secs,
                    direct_addresses: views(direct_addresses@),
                },
            PairingRequest::ResolveInvite { code_hash } => RequestView::ResolveInvite {
                code_hash: code_hash@,
            },
            PairingRequest::PreKeyBundle => RequestView::PreKeyBundle,
            PairingRequest::InitialMessage(payload) => RequestView::InitialMessage(payload@),
            PairingRequest::ChatFrame(payload) => RequestView::ChatFrame(payload@),
        }
    }
}

/// What the service or another peer answers.
#[derive(Debug, Clone, PartialEq, Eq)]
pub enum PairingResponse {
    Registered,
    Resolved { peer_id: String, direct_addresses: Vec<String> },
    PreKeyBundle(Vec<u8>),
    Ack(String),
    Error(String),
}

#[verifier::ext_equal]
pub enum ResponseView {
    Registered,
    Resolved { peer_id: Seq<char>, direct_addresses: Seq<Seq<char>> },
    PreKeyBundle(Seq<u8>),
    Ack(Seq<char>),
    Error(Seq<char>),
}

impl View for PairingResponse {
    type V = ResponseView;

    open spec fn view(&self) -> ResponseView {
        match *self {
            PairingResponse::Registered => ResponseView::Registered,
            PairingResponse::Resolved { peer_id, direct_addresses } => ResponseView::Resolved {
                peer_id: peer_id@,
                direct_addresses: views(direct_addresses@),
            },
            PairingResponse::PreKeyBundle(payload) => ResponseView::PreKeyBundle(payload@),
            PairingResponse::Ack(id) => ResponseView::Ack(id@),
            PairingResponse::Error(error) => ResponseView::Error(error@),
        }
    }
}

/// An invite that can be joined: who issued it, where to dial them, and until when.
#[derive(Debug, Clone, PartialEq, Eq)]
pub struct InviteRegistration {
    pub peer_id: String,
    pub direct_addresses: Vec<String>,
    pub expires_at_unix_secs: u64,
}

#[verifier::ext_equal]
pub struct RegistrationView {
    pub peer_id: Seq<char>,
    pub direct_addresses: Seq<Seq<char>>,
    pub expires_at_unix_secs: u64,
}

impl View for InviteRegistration {
    type V = RegistrationView;

    open spec fn view(&self) -> RegistrationView {
        RegistrationView {
            peer_id: self.peer_id@,
            direct_addresses: views(self.direct_addresses@),
            expires_at_unix_secs: self.expires_at_unix_secs,
        }
    }
}

impl Record for InviteRegistration {
    fn duplicate(&self) -> (copy: Self) {
        InviteRegistration {
            peer_id: self.peer_id.clone(),
            direct_addresses: duplicates(&self.direct_addresses),
            expires_at_unix_secs: self.expires_at_unix_secs,
        }
    }
}

/// What the service holds, all of it in memory: the invites by the digest of their code,
/// and the peers with a relay reservation.
pub struct PublicService {
    pub invitations: SortedMap<String, InviteRegistration>,
    pub reserved_peers: SortedMap<String, bool>,
}

#[verifier::ext_equal]
pub struct ServiceView {
    pub invitations: Map<Seq<char>, RegistrationView>,
    pub reserved: Set<Seq<char>>,
}

impl View for PublicService {
    type V = ServiceView;

    open spec fn view(&self) -> ServiceView {
        ServiceView { invitations: self.invitations@, reserved: self.reserved_peers@.dom() }
    }
}

/// The invites that can still be joined at a time.
pub open spec fn unexpired(now: u64) -> spec_fn(RegistrationView) -> bool {
    |invite: RegistrationView| invite.expires_at_unix_secs > now
}

/// The invites that a peer did not issue.
pub open spec fn not_issued_by(peer: Seq<char>) -> spec_fn(RegistrationView) -> bool {
    |invite: RegistrationView| invite.peer_id != peer
}

impl ServiceView {
    /// Every invite was issued by a peer that holds a reservation.
    pub open spec fn is_sound(self) -> bool {
        forall|code: Seq<char>| #[trigger]
            self.invitations.contains_key(code) ==> self.reserved.contains(
                self.invitations[code].peer_id,
            )
    }

    /// The service without the invites that have expired.
    pub open spec fn pruned(self, now: u64) -> ServiceView {
        ServiceView { invitations: map_where(self.invitations, unexpired(now)), ..self }
    }

    pub open spec fn with_reservation(self, peer: Seq<char>) -> ServiceView {
        ServiceView { reserved: self.reserved.insert(peer), ..self }
    }

    /// The reservation of a peer has ended, and with it its invites.
    pub open spec fn without_reservation(self, peer: Seq<char>) -> ServiceView {
        ServiceView {
            invitations: map_where(self.invitations, not_issued_by(peer)),
            reserved: self.reserved.remove(peer),
        }
    }

    /// Whether an expiry lies ahead by no more than an invite lives.
    pub open spec fn is_valid_expiry(expires_at: u64, now: u64) -> bool {
        now < expires_at <= now + INVITE_TTL_SECS
    }

    /// Whether a code is in use for another peer's invite.
    pub open spec fn is_taken(self, code_hash: Seq<char>, peer: Seq<char>) -> bool {
        self.invitations.contains_key(code_hash) && self.invitations[code_hash].peer_id != peer
    }

    /// What a request is answered, once expired invites are gone.
    pub open spec fn response(self, peer: Seq<char>, request: RequestView, now: u64) -> ResponseView {
        match request {
            RequestView::RegisterInvite { code_hash, expires_at_unix_secs, direct_addresses } =>
                if !self.reserved.contains(peer) {
                    ResponseView::Error("relay reservation is not ready; retrying"@)
                } else if !ServiceView::is_valid_expiry(expires_at_unix_secs, now) {
                    ResponseView::Error("invalid invite expiry"@)
                } else if self.is_taken(code_hash, peer) {
                    ResponseView::Error("invite code collision; try again"@)
                } else {
                    ResponseView::Registered
                },
            RequestView::ResolveInvite { code_hash } => if self.invitations.contains_key(code_hash)
                && self.reserved.contains(self.invitations[code_hash].peer_id) {
                ResponseView::Resolved {
                    peer_id: self.invitations[code_hash].peer_id,
                    direct_addresses: self.invitations[code_hash].direct_addresses,
                }
            } else {
                ResponseView::Error("Invite is invalid, expired, or already used."@)
            },
            _ => ResponseView::Error("unsupported service request"@),
        }
    }

    /// What a request leaves behind, once expired invites are gone.
    pub open spec fn after_request(self, peer: Seq<char>, request: RequestView, now: u64) -> ServiceView {
        match request {
            RequestView::RegisterInvite { code_hash, expires_at_unix_secs, direct_addresses } =>
                if self.response(peer, request, now) == ResponseView::Registered {
                    ServiceView {
                        invitations: self.invitations.insert(
                            code_hash,
                            RegistrationView {
                                peer_id: peer,
                                direct_addresses: sanitized_texts(direct_addresses),
                                expires_at_unix_secs,
                            },
                        ),
                        ..self
                    }
                } else {
                    self
                },
            RequestView::ResolveInvite { code_hash } => ServiceView {
                invitations: self.invitations.remove(code_hash),
                ..self
            },
            _ => self,
        }
    }
}

impl PublicService {
    pub open spec fn wf(&self) -> bool {
        self.invitations.wf() && self.reserved_peers.wf()
    }

    /// A service without invites and reservations.
    pub fn new() -> (service: PublicService)
        ensures
            service.wf(),
            service@ == (ServiceView { invitations: Map::empty(), reserved: Set::empty() }),
            service@.is_sound(),
    {
        let service = PublicService {
            invitations: SortedMap::new(),
            reserved_peers: SortedMap::new(),
        };
        assert(service@.reserved =~= Set::<Seq<char>>::empty());
        assert(service@.invitations =~= Map::<Seq<char>, RegistrationView>::empty());
        service
    }

    /// A relay reservation was given to the peer.
    pub fn reservation_accepted(&mut self, peer: &str)
        requires
            old(self).wf(),
        ensures
            final(self).wf(),
            final(self)@ == old(self)@.with_reservation(peer@),
            old(self)@.is_sound() ==> final(self)@.is_sound(),
    {
        self.reserved_peers.insert(copy_text(peer), true);
        assert(self@.reserved =~= old(self)@.reserved.insert(peer@));
    }

    /// The relay reservation of the peer was closed or has timed out.
    pub fn reservation_ended(&mut self, peer: &str)
        requires
            old(self).wf(),
        ensures
            final(self).wf(),
            final(self)@ == old(self)@.without_reservation(peer@),
            old(self)@.is_sound() ==> final(self)@.is_sound(),
    {
        self.reserved_peers.remove(&copy_text(peer));
        let kept = |invite: &InviteRegistration| -> (answer: bool)
            ensures
                answer == (invite@.peer_id != peer@),
            { !same_text(invite.peer_id.as_str(), peer) };
        self.invitations = filtered(&self.invitations, kept, Ghost(not_issued_by(peer@)));
        assert(self@.reserved =~= old(self)@.reserved.remove(peer@));
    }

    fn prune(&mut self, now: u64)
        requires
            old(self).wf(),
        ensures
            final(self).wf(),
            final(self)@ == old(self)@.pruned(now),
    {
        let kept = |invite: &InviteRegistration| -> (answer: bool)
            ensures
                answer == (invite@.expires_at_unix_secs > now),
            { invite.expires_at_unix_secs > now };
        self.invitations = filtered(&self.invitations, kept, Ghost(unexpired(now)));
    }

    /// Answers a request of a peer.
    pub fn answer(&mut self, peer: &str, request: PairingRequest, now: u64) -> (response:
        PairingResponse)
        requires
            old(self).wf(),
        ensures
            final(self).wf(),
            response@ == old(self)@.pruned(now).response(peer@, request@, now),
            final(self)@ == old(self)@.pruned(now).after_request(peer@, request@, now),
            old(self)@.is_sound() ==> final(self)@.is_sound(),
    {
        self.prune(now);
        let ghost before = self@;
        match request {
            PairingRequest::RegisterInvite { code_hash, expires_at_unix_secs, direct_addresses } => {
                if !self.reserved_peers.contains_key(&copy_text(peer)) {
                    return PairingResponse::Error(
                        copy_text("relay reservation is not ready; retrying"),
                    );
                }
                if expires_at_unix_secs <= now || expires_at_unix_secs - now > INVITE_TTL_SECS {
                    return PairingResponse::Error(copy_text("invalid invite expiry"));
                }
                let taken = match self.invitations.get(&code_hash) {
                    Some(existing) => !same_text(existing.peer_id.as_str(), peer),
                    None => false,
                };
                if taken {
                    return PairingResponse::Error(copy_text("invite code collision; try again"));
                }
                let registration = InviteRegistration {
                    peer_id: copy_text(peer),
                    direct_addresses: sanitize_all(&direct_addresses),
                    expires_at_unix_secs,
                };
                self.invitations.insert(code_hash, registration);
                PairingResponse::Registered
            },
            PairingRequest::ResolveInvite { code_hash } => {
                let response = match self.invitations.get(&code_hash) {
                    Some(invite) => if self.reserved_peers.contains_key(&invite.peer_id) {
                        PairingResponse::Resolved {
                            peer_id: invite.peer_id.clone(),
                            direct_addresses: duplicates(&invite.direct_addresses),
                        }
                    } else {
                        PairingResponse::Error(
                            copy_text("Invite is invalid, expired, or already used."),
                        )
                    },
                    None => PairingResponse::Error(
                        copy_text("Invite is invalid, expired, or already used."),
                    ),
                };
                self.invitations.remove(&code_hash);
                response
            },
            _ => PairingResponse::Error(copy_text("unsupported service request")),
        }
    }
}

/// What a user is told of an error that the service answered.
pub open spec fn told_error(error: Seq<char>) -> Seq<char> {
    if has_part(error, "invalid"@) || has_part(error, "expired"@) || has_part(error, "used"@) {
        "Invite is invalid, expired, or already used."@
    } else {
        "Pairing service is temporarily unavailable. Please try again."@
    }
}

/// What a user is told of an error that the service answered.
pub fn human_service_error(error: &str) -> (text: &'static str)
    ensures
        text@ == told_error(error@),
{
    if contains_text(error, "invalid") || contains_text(error, "expired") || contains_text(
        error,
        "used",
    ) {
        "Invite is invalid, expired, or already used."
    } else {
        "Pairing service is temporarily unavailable. Please try again."
    }
}

/// What was found where the service's key should be.
#[derive(Debug, Clone, Copy, PartialEq, Eq, Structural)]
pub enum KeyFile {
    Read,
    Missing,
    Unreadable,
}

/// What becomes of the service's key at its start.
#[derive(Debug, Clone, Copy, PartialEq, Eq, Structural)]
pub enum KeyAction {
    Use,
    /// A new key is made and kept.
    Create,
    /// The permanent key has to be restored.
    RefuseMissing,
    RefuseUnreadable,
}

/// What becomes of the service's key at its start: the permanent key is never replaced.
pub fn service_key_action(path: &str, found: KeyFile) -> (action: KeyAction)
    ensures
        action == match found {
            KeyFile::Read => KeyAction::Use,
            KeyFile::Missing => if path@ == DEFAULT_SERVICE_IDENTITY_PATH@ {
                KeyAction::RefuseMissing
            } else {
                KeyAction::Create
            },
            KeyFile::Unreadable => KeyAction::RefuseUnreadable,
        },
{
    match found {
        KeyFile::Read => KeyAction::Use,
        KeyFile::Missing => if same_text(path, DEFAULT_SERVICE_IDENTITY_PATH) {
            KeyAction::RefuseMissing
        } else {
            KeyAction::Create
        },
        KeyFile::Unreadable => KeyAction::RefuseUnreadable,
    }
}

/// Whether a service may run under a peer id: with the permanent key only as the
/// built-in service.
pub fn is_expected_service(path: &str, peer_id: &str) -> (answer: bool)
    ensures
        answer == (path@ == DEFAULT_SERVICE_IDENTITY_PATH@ ==> peer_id@
            == DEFAULT_PAIRING_SERVICE_PEER_ID@),
{
    !same_text(path, DEFAULT_SERVICE_IDENTITY_PATH) || same_text(
        peer_id,
        DEFAULT_PAIRING_SERVICE_PEER_ID,
    )
}

/// An invite is registered only while its issuer holds a relay reservation.
pub proof fn law_registration_needs_reservation(
    service: ServiceView,
    peer: Seq<char>,
    request: RequestView,
    now: u64,
)
    requires
        request is RegisterInvite,
        !service.reserved.contains(peer),
    ensures
        service.pruned(now).response(peer, request, now) is Error,
        service.pruned(now).after_request(peer, request, now) == service.pruned(now),
{
}

/// A registered invite is resolved to its issuer until it expires, as long as the
/// reservation lasts: at the addresses that the issuer may be dialled at directly.
pub proof fn law_registered_invite_is_resolved(
    service: ServiceView,
    peer: Seq<char>,
    code_hash: Seq<char>,
    expires_at: u64,
    addresses: Seq<Seq<char>>,
    now: u64,
    joiner: Seq<char>,
    later: u64,
)
    requires
        ({
            let request = RequestView::RegisterInvite {
                code_hash,
                expires_at_unix_secs: expires_at,
                direct_addresses: addresses,
            };
            service.pruned(now).response(peer, request, now) == ResponseView::Registered
        }),
        later < expires_at,
    ensures
        ({
            let request = RequestView::RegisterInvite {
                code_hash,
                expires_at_unix_secs: expires_at,
                direct_addresses: addresses,
            };
            let registered = service.pruned(now).after_request(peer, request, now);
            registered.pruned(later).response(
                joiner,
                RequestView::ResolveInvite { code_hash },
                later,
            ) == (ResponseView::Resolved {
                peer_id: peer,
                direct_addresses: sanitized_texts(addresses),
            })
        }),
{
    let request = RequestView::RegisterInvite {
        code_hash,
        expires_at_unix_secs: expires_at,
        direct_addresses: addresses,
    };
    let registered = service.pruned(now).after_request(peer, request, now);
    assert(keys_where(registered.invitations, unexpired(later)).contains(code_hash));
}

/// An invite is resolved at most once: whatever a resolution is answered, the next one
/// of the same code is refused, unless it was registered anew.
pub proof fn law_invite_is_resolved_once(
    service: ServiceView,
    first: Seq<char>,
    second: Seq<char>,
    code_hash: Seq<char>,
    now: u64,
    later: u64,
)
    ensures
        ({
            let request = RequestView::ResolveInvite { code_hash };
            let used = service.pruned(now).after_request(first, request, now);
            used.pruned(later).response(second, request, later) == ResponseView::Error(
                "Invite is invalid, expired, or already used."@,
            )
        }),
{
}

/// An expired invite is not resolved.
pub proof fn law_expired_invite_is_refused(
    service: ServiceView,
    code_hash: Seq<char>,
    joiner: Seq<char>,
    now: u64,
)
    requires
        service.invitations.contains_key(code_hash) ==> service.invitations[code_hash].expires_at_unix_secs
            <= now,
    ensures
        service.pruned(now).response(joiner, RequestView::ResolveInvite { code_hash }, now)
            == ResponseView::Error("Invite is invalid, expired, or already used."@),
{
}

/// No invite outlives five minutes.
pub proof fn law_registration_is_short_lived(
    service: ServiceView,
    peer: Seq<char>,
    code_hash: Seq<char>,
    expires_at: u64,
    addresses: Seq<Seq<char>>,
    now: u64,
)
    requires
        expires_at <= now || expires_at > now + INVITE_TTL_SECS,
    ensures
        service.pruned(now).response(
            peer,
            RequestView::RegisterInvite {
                code_hash,
                expires_at_unix_secs: expires_at,
                direct_addresses: addresses,
            },
            now,
        ) is Error,
{
}

/// The end of a reservation removes every invite of its holder and no other invite.
pub proof fn law_reservation_end_removes_invites(service: ServiceView, peer: Seq<char>)
    ensures
        forall|code: Seq<char>| #[trigger]
            service.without_reservation(peer).invitations.contains_key(code)
                <==> service.invitations.contains_key(code) && service.invitations[code].peer_id
                != peer,
        forall|code: Seq<char>| #[trigger]
            service.without_reservation(peer).invitations.contains_key(code)
                ==> service.without_reservation(peer).invitations[code]
                == service.invitations[code],
{
    let kept = keys_where(service.invitations, not_issued_by(peer));
    assert forall|code: Seq<char>|
        kept.contains(code) <==> service.invitations.contains_key(code)
            && service.invitations[code].peer_id != peer by {}
}

/// A peer cannot take over the code of another peer's invite.
pub proof fn law_code_of_another_is_kept(
    service: ServiceView,
    peer: Seq<char>,
    request: RequestView,
    code_hash: Seq<char>,
    now: u64,
)
    requires
        request is RegisterInvite,
        service.pruned(now).is_taken(code_hash, peer),
    ensures
        service.pruned(now).after_request(peer, request, now).invitations.contains_key(code_hash),
        service.pruned(now).after_request(peer, request, now).invitations[code_hash]
            == service.pruned(now).invitations[code_hash],
{
}

/// A user whose code the service refuses is told so.
pub proof fn law_refused_code_is_told()
    ensures
        told_error("Invite is invalid, expired, or already used."@)
            == "Invite is invalid, expired, or already used."@,
{
    reveal_strlit("Invite is invalid, expired, or already used.");
    reveal_strlit("invalid");
    let text = "Invite is invalid, expired, or already used."@;
    let at: int = 10;
    assert(text.subrange(at, at + "invalid"@.len()) =~= "invalid"@);
}

} // verus!
