//! What holds of the public service and of the clients that pair through it, over several
//! requests and events.

use crate::address::{canonical_peer, direct_text, sanitized_texts, DirectPartView};
use crate::invite::INVITE_TTL_SECS;
use crate::pairing::{
    ChatLine, ChatView, HostNews, HostReply, HostView, JoinNewsView, JoinStep, JoinView,
    PairingFailure,
};
use crate::service::{unexpired, RequestView, ResponseView, ServiceView};
use crate::sorted::keys_where;
use vstd::prelude::*;

verus! {

/// The code that a request is about, if it is about one.
pub open spec fn code_in(request: RequestView) -> Option<Seq<char>> {
    match request {
        RequestView::RegisterInvite { code_hash, .. } => Some(code_hash),
        RequestView::ResolveInvite { code_hash } => Some(code_hash),
        _ => None,
    }
}

/// A request concerns its own code alone: the invite of every other code stays as it is, and
/// so does every reservation.
pub proof fn law_request_concerns_one_code(
    service: ServiceView,
    peer: Seq<char>,
    request: RequestView,
    now: u64,
    other: Seq<char>,
)
    requires
        code_in(request) != Some(other),
    ensures
        ({
            let after = service.after_request(peer, request, now);
            &&& after.reserved == service.reserved
            &&& after.invitations.contains_key(other) <==> service.invitations.contains_key(other)
            &&& service.invitations.contains_key(other) ==> after.invitations[other]
                == service.invitations[other]
        }),
{
}

/// Time takes the invites away that have expired, and no other invite and no reservation.
pub proof fn law_time_concerns_expired_invites(service: ServiceView, now: u64, code: Seq<char>)
    ensures
        ({
            let after = service.pruned(now);
            &&& after.reserved == service.reserved
            &&& after.invitations.contains_key(code) <==> service.invitations.contains_key(code)
                && service.invitations[code].expires_at_unix_secs > now
            &&& after.invitations.contains_key(code) ==> after.invitations[code]
                == service.invitations[code]
        }),
{
    assert(keys_where(service.invitations, unexpired(now)).contains(code)
        <==> service.invitations.contains_key(code)
        && service.invitations[code].expires_at_unix_secs > now);
}

/// A registered invite that has not expired is resolved to its issuer, whatever was asked of
/// other codes before.
pub proof fn law_invite_outlives_requests_about_others(
    service: ServiceView,
    code: Seq<char>,
    someone: Seq<char>,
    request: RequestView,
    now: u64,
    joiner: Seq<char>,
    later: u64,
)
    requires
        service.invitations.contains_key(code),
        service.reserved.contains(service.invitations[code].peer_id),
        now < service.invitations[code].expires_at_unix_secs,
        later < service.invitations[code].expires_at_unix_secs,
        code_in(request) != Some(code),
    ensures
        service.pruned(now).after_request(someone, request, now).pruned(later).response(
            joiner,
            RequestView::ResolveInvite { code_hash: code },
            later,
        ) == (ResponseView::Resolved {
            peer_id: service.invitations[code].peer_id,
            direct_addresses: service.invitations[code].direct_addresses,
        }),
{
    law_time_concerns_expired_invites(service, now, code);
    law_request_concerns_one_code(service.pruned(now), someone, request, now, code);
    let after = service.pruned(now).after_request(someone, request, now);
    law_time_concerns_expired_invites(after, later, code);
}

/// An invite is registered exactly if its issuer holds a reservation, it expires within five
/// minutes, and its code is not that of another peer's invite.
pub proof fn law_registration_is_granted(
    service: ServiceView,
    peer: Seq<char>,
    code: Seq<char>,
    expires_at: u64,
    addresses: Seq<Seq<char>>,
    now: u64,
)
    ensures
        ({
            let request = RequestView::RegisterInvite {
                code_hash: code,
                expires_at_unix_secs: expires_at,
                direct_addresses: addresses,
            };
            let free = !(service.invitations.contains_key(code)
                && service.invitations[code].expires_at_unix_secs > now
                && service.invitations[code].peer_id != peer);
            let after = service.pruned(now).after_request(peer, request, now);
            &&& service.pruned(now).response(peer, request, now) == ResponseView::Registered
                <==> service.reserved.contains(peer) && now < expires_at <= now + 300 && free
            &&& service.reserved.contains(peer) && now < expires_at <= now + 300 && free ==> {
                &&& after.invitations.contains_key(code)
                &&& after.invitations[code].peer_id == peer
                &&& after.invitations[code].expires_at_unix_secs == expires_at
                &&& after.invitations[code].direct_addresses == sanitized_texts(addresses)
            }
        }),
{
    law_time_concerns_expired_invites(service, now, code);
    assert(INVITE_TTL_SECS == 300);
}

/// A code is resolved exactly if it is that of an invite which has not expired and whose
/// issuer holds a reservation; otherwise the joiner is told so.
pub proof fn law_resolution_is_granted(
    service: ServiceView,
    joiner: Seq<char>,
    code: Seq<char>,
    now: u64,
)
    ensures
        ({
            let response = service.pruned(now).response(
                joiner,
                RequestView::ResolveInvite { code_hash: code },
                now,
            );
            if service.invitations.contains_key(code)
                && service.invitations[code].expires_at_unix_secs > now
                && service.reserved.contains(service.invitations[code].peer_id) {
                response == (ResponseView::Resolved {
                    peer_id: service.invitations[code].peer_id,
                    direct_addresses: service.invitations[code].direct_addresses,
                })
            } else {
                response == ResponseView::Error("Invite is invalid, expired, or already used."@)
            }
        }),
{
    law_time_concerns_expired_invites(service, now, code);
}

/// The service serves nothing but registration and resolution: any other request changes
/// nothing.
pub proof fn law_service_carries_no_messages(
    service: ServiceView,
    peer: Seq<char>,
    request: RequestView,
    now: u64,
)
    requires
        code_in(request) is None,
    ensures
        service.after_request(peer, request, now) == service,
        service.response(peer, request, now) is Error,
{
}

/// A reservation concerns its own peer: given or ended, it leaves the reservations of all
/// others, and none is given with another's.
pub proof fn law_reservation_concerns_one_peer(
    service: ServiceView,
    peer: Seq<char>,
    other: Seq<char>,
)
    ensures
        service.with_reservation(peer).invitations == service.invitations,
        service.with_reservation(peer).reserved.contains(other) <==> service.reserved.contains(
            other,
        ) || other == peer,
        service.without_reservation(peer).reserved.contains(other) <==> service.reserved.contains(
            other,
        ) && other != peer,
{
}

/// A host offers every address at which it listens, in the order in which it learned of
/// them and each once; nothing else of the invite changes.
pub proof fn law_host_offers_its_listeners(host: HostView, parts: Seq<DirectPartView>, i: int)
    ensures
        ({
            let text = direct_text(parts);
            let after = host.on_listener(Some(parts));
            &&& after.direct_addresses.contains(text)
            &&& after.direct_listener_ready
            &&& 0 <= i < host.direct_addresses.len() ==> i < after.direct_addresses.len()
                && after.direct_addresses[i] == host.direct_addresses[i]
            &&& host.direct_addresses.contains(text) ==> after.direct_addresses
                == host.direct_addresses
            &&& !host.direct_addresses.contains(text) ==> after.direct_addresses.len()
                == host.direct_addresses.len() + 1
            &&& after.service_peer_id == host.service_peer_id
            &&& after.code_hash == host.code_hash
            &&& after.expires_at_unix_secs == host.expires_at_unix_secs
            &&& after.registered == host.registered
            &&& after.reservation_confirmed == host.reservation_confirmed
            &&& host.on_listener(None) == host
        }),
{
    let text = direct_text(parts);
    let after = host.on_listener(Some(parts));
    if !host.direct_addresses.contains(text) {
        assert(after.direct_addresses.last() == text);
        assert(after.direct_addresses[after.direct_addresses.len() - 1] == text);
    }
}

/// A host registers once there is both a reservation and an address to offer, whichever
/// comes last, and asks for nothing else in the registration than for its own code and
/// time.
pub proof fn law_host_registers_when_ready(
    host: HostView,
    parts: Seq<DirectPartView>,
)
    requires
        !host.registered,
        !host.registration_sent,
    ensures
        host.registers_on_listener() <==> host.reservation_confirmed,
        host.on_listener(Some(parts)).registration_sent <==> host.reservation_confirmed,
        host.registers_on_reservation(host.service_peer_id, false) <==> host.direct_listener_ready,
        host.on_reservation(host.service_peer_id, false).reservation_confirmed,
        host.on_reservation(host.service_peer_id, false).registration_sent
            <==> host.direct_listener_ready,
        host.registration() == (RequestView::RegisterInvite {
            code_hash: host.code_hash,
            expires_at_unix_secs: host.expires_at_unix_secs,
            direct_addresses: host.direct_addresses,
        }),
{
}

/// What another peer than the service does about reservations and answers leaves a host as
/// it is.
pub proof fn law_only_the_service_moves_a_host(
    host: HostView,
    peer: Seq<char>,
    renewal: bool,
    response: ResponseView,
)
    requires
        peer != host.service_peer_id,
    ensures
        host.on_reservation(peer, renewal) == host,
        host.on_response(peer, response) == host,
        host.news(peer, response) == HostNews::Nothing,
        !host.registers_on_reservation(peer, renewal),
{
}

/// The code of an invite is shown once, when the service has registered it.
pub proof fn law_code_is_shown_once(host: HostView)
    ensures
        ({
            let after = host.on_response(host.service_peer_id, ResponseView::Registered);
            &&& after.registered
            &&& after == HostView { registered: true, ..host }
            &&& !host.registered ==> host.news(host.service_peer_id, ResponseView::Registered)
                == HostNews::ShowCode
            &&& after.news(host.service_peer_id, ResponseView::Registered) == HostNews::Nothing
        }),
{
}

/// A registered host gives its keys to whoever asks and opens whatever first message comes,
/// and refuses all else.
pub proof fn law_registered_host_serves_joiners(
    host: HostView,
    peer: Seq<char>,
    payload: Seq<u8>,
    request: RequestView,
)
    requires
        host.registered,
        peer != host.service_peer_id,
    ensures
        host.reply(peer, RequestView::PreKeyBundle) == HostReply::SendBundle,
        host.reply(peer, RequestView::InitialMessage(payload)) == HostReply::OpenInitialMessage,
        !(request is PreKeyBundle) && !(request is InitialMessage) ==> host.reply(peer, request)
            == HostReply::Refuse,
{
}

/// A lost reservation takes the registration with it and nothing else.
pub proof fn law_lost_reservation_keeps_invite(host: HostView)
    ensures
        ({
            let after = host.on_relay_closed();
            &&& !after.registered
            &&& !after.registration_sent
            &&& !after.reservation_confirmed
            &&& after.code_hash == host.code_hash
            &&& after.expires_at_unix_secs == host.expires_at_unix_secs
            &&& after.direct_addresses == host.direct_addresses
            &&& after.direct_listener_ready == host.direct_listener_ready
            &&& after.service_peer_id == host.service_peer_id
        }),
{
}

/// A joiner looks its code up as soon as it has reached the service directly, and asks the
/// issuer for its keys as soon as it has reached the issuer on any path.
pub proof fn law_join_asks_when_connected(join: JoinView, peer: Seq<char>, relayed: bool)
    ensures
        !join.lookup_sent ==> join.step_on_connection(join.service_peer_id, false)
            == JoinStep::LookUpInvite && join.on_connection(join.service_peer_id, false)
            == (JoinView { lookup_sent: true, ..join }),
        join.target_peer_id == Some(peer) && peer != join.service_peer_id && !join.requested_bundle
            ==> join.step_on_connection(peer, relayed) == JoinStep::RequestBundle
            && join.on_connection(peer, relayed) == (JoinView { requested_bundle: true, ..join }),
        peer != join.service_peer_id && join.target_peer_id != Some(peer) ==> join.on_connection(
            peer,
            relayed,
        ) == join && join.step_on_connection(peer, relayed) == JoinStep::Nothing,
{
}

/// What the service resolved is whom the joiner turns to; what strangers answer is ignored.
pub proof fn law_join_follows_the_service(
    join: JoinView,
    issuer: Seq<char>,
    addresses: Seq<Seq<char>>,
    stranger: Seq<char>,
    response: ResponseView,
)
    requires
        canonical_peer(issuer) is Some,
    ensures
        ({
            let resolved = ResponseView::Resolved { peer_id: issuer, direct_addresses: addresses };
            let after = join.on_response(join.service_peer_id, resolved);
            &&& after.target_peer_id == canonical_peer(issuer)
            &&& after.lookup_sent == join.lookup_sent
            &&& after.requested_bundle == join.requested_bundle
            &&& after.code_hash == join.code_hash
            &&& after.service_peer_id == join.service_peer_id
            &&& sanitized_texts(addresses).len() > 0 ==> join.news(join.service_peer_id, resolved)
                == JoinNewsView::DialDirect(sanitized_texts(addresses))
            &&& sanitized_texts(addresses).len() == 0 ==> after.relay_started && join.news(
                join.service_peer_id,
                resolved,
            ) == JoinNewsView::DialThroughRelay
            &&& stranger != join.service_peer_id ==> join.on_response(stranger, response) == join
            &&& stranger != join.service_peer_id && join.target_peer_id != Some(stranger)
                ==> join.news(stranger, response) == JoinNewsView::Nothing
        }),
{
}

/// The keys of the issuer are taken from the issuer alone.
pub proof fn law_bundle_is_taken_from_issuer(
    join: JoinView,
    peer: Seq<char>,
    bundle: Seq<u8>,
)
    requires
        peer != join.service_peer_id,
    ensures
        join.news(peer, ResponseView::PreKeyBundle(bundle)) == JoinNewsView::Bundle
            <==> join.target_peer_id == Some(peer),
{
}

/// A joiner whose issuer cannot be named gives up and stays as it was.
pub proof fn law_unnameable_issuer_is_refused(
    join: JoinView,
    issuer: Seq<char>,
    addresses: Seq<Seq<char>>,
)
    requires
        canonical_peer(issuer) is None,
    ensures
        ({
            let resolved = ResponseView::Resolved { peer_id: issuer, direct_addresses: addresses };
            &&& join.on_response(join.service_peer_id, resolved) == join
            &&& join.news(join.service_peer_id, resolved) == JoinNewsView::Fail(
                PairingFailure::InvalidPeer,
            )
        }),
{
}

/// The way through the relay is opened for a known issuer and changes nothing else.
pub proof fn law_fallback_starts_the_relay(join: JoinView)
    ensures
        join.target_peer_id is None ==> join.on_fallback() == join,
        join.target_peer_id is Some && !join.relay_started ==> join.falls_back()
            && join.on_fallback() == (JoinView {
            relay_started: true,
            fallback_pending: false,
            ..join
        }),
{
}

/// A line that is typed in a chat is sent while the peer is there and waits while it is
/// not; an empty one is dropped.
pub proof fn law_line_is_sent_or_waits(chat: ChatView, line: Seq<char>)
    requires
        line.len() > 0,
        chat.line(line) != ChatLine::Leave,
    ensures
        chat.line(line) == if chat.online {
            ChatLine::Send
        } else {
            ChatLine::Queue
        },
{
}

/// Connections of other peers do not count in a chat.
pub proof fn law_chat_minds_its_own_peer(chat: ChatView, peer: Seq<char>, remaining: u32)
    requires
        peer != chat.target_peer_id,
    ensures
        chat.on_connection(peer) == chat,
        chat.on_closed(peer, remaining) == chat,
        !chat.comes_back(peer),
        chat.on_connection(chat.target_peer_id).online,
        chat.on_connection(chat.target_peer_id).target_peer_id == chat.target_peer_id,
{
}

} // verus!
