//! What holds of the addresses at which peers are dialled and published.

use crate::address::{
    app_socket, direct_parts, direct_text, first_ip, has_ip, has_tcp, is_dialable, is_public,
    is_public_part, is_relayed, is_unspecified, is_usable, last_ip, last_port, listener_parts,
    named_peer, parsed_address, published, sanitized, sanitized_text, sanitized_texts,
    through_relay, through_relays, without_peers, AppAddressError, DirectPartView, IpView,
    PartView,
};
use crate::pairing::listener_address;
use crate::relay::first_known_ip;
use vstd::prelude::*;

verus! {

/// Addresses that lead nowhere or to everyone are not dialled: the unspecified one, those of
/// the own machine, of the local link, of groups, of all, and of documentation.
pub proof fn law_unreachable_v4_is_not_dialled(ip: Seq<u8>)
    requires
        ip.len() == 4,
        ip == seq![0u8, 0u8, 0u8, 0u8] || ip[0] == 127 || (ip[0] == 169 && ip[1] == 254) || (224
            <= ip[0] && ip[0] <= 239) || ip == seq![255u8, 255u8, 255u8, 255u8] || (ip[0] == 192
            && ip[1] == 0 && ip[2] == 2) || (ip[0] == 198 && ip[1] == 51 && ip[2] == 100) || (ip[0]
            == 203 && ip[1] == 0 && ip[2] == 113),
    ensures
        !is_dialable(IpView::V4(ip)),
{
}

/// Every other address is dialled, those of private networks among them.
pub proof fn law_reachable_v4_is_dialled(ip: Seq<u8>)
    requires
        ip.len() == 4,
        1 <= ip[0] <= 223,
        ip[0] != 127,
        !(ip[0] == 169 && ip[1] == 254),
        !(ip[0] == 192 && ip[1] == 0 && ip[2] == 2),
        !(ip[0] == 198 && ip[1] == 51 && ip[2] == 100),
        !(ip[0] == 203 && ip[1] == 0 && ip[2] == 113),
    ensures
        is_dialable(IpView::V4(ip)),
{
}

/// Of the longer addresses the unspecified one, that of the own machine, those of the local
/// link and of groups are not dialled.
pub proof fn law_unreachable_v6_is_not_dialled(ip: Seq<u8>)
    requires
        ip.len() == 16,
        (forall|i: int| 0 <= i < 15 ==> #[trigger] ip[i] == 0) && ip[15] <= 1 || (ip[0] == 0xfe
            && 0x80 <= ip[1] && ip[1] <= 0xbf) || ip[0] == 0xff,
    ensures
        !is_dialable(IpView::V6(ip)),
{
}

/// Every other of the longer addresses is dialled.
pub proof fn law_reachable_v6_is_dialled(ip: Seq<u8>)
    requires
        ip.len() == 16,
        1 <= ip[0] <= 0xfd,
    ensures
        is_dialable(IpView::V6(ip)),
{
    assert(ip[0] != 0);
}

/// A service at a private, local, group or documentation address is not public.
pub proof fn law_private_v4_is_not_public(ip: Seq<u8>)
    requires
        ip.len() == 4,
        ip == seq![0u8, 0u8, 0u8, 0u8] || ip[0] == 127 || ip[0] == 10 || (ip[0] == 172 && 16 <= ip[1]
            && ip[1] <= 31) || (ip[0] == 192 && ip[1] == 168) || (ip[0] == 169 && ip[1] == 254)
            || (224 <= ip[0] && ip[0] <= 239) || (ip[0] == 192 && ip[1] == 0 && ip[2] == 2),
    ensures
        !is_public_part(PartView::Ip4(ip)),
{
}

/// A service with a name, or at an ordinary address, is public.
pub proof fn law_named_service_is_public(address: Seq<PartView>, i: int, name: Seq<char>, ip: Seq<u8>)
    requires
        0 <= i < address.len(),
        address[i] == PartView::Dns(name) || address[i] == PartView::Dns4(name) || address[i]
            == PartView::Dns6(name) || (address[i] == PartView::Ip4(ip) && ip.len() == 4 && 11
            <= ip[0] && ip[0] <= 126),
    ensures
        is_public(address),
{
    assert(is_public_part(address[i]));
}

/// An address without a name or an internet address is not public.
pub proof fn law_ports_alone_are_not_public(address: Seq<PartView>)
    requires
        forall|i: int|
            0 <= i < address.len() ==> (#[trigger] address[i] is Tcp) || (address[i] is Udp) || (
            address[i] is P2p) || (address[i] is P2pCircuit),
    ensures
        !is_public(address),
{
    assert forall|i: int| 0 <= i < address.len() implies !is_public_part(#[trigger] address[i]) by {
        assert((address[i] is Tcp) || (address[i] is Udp) || (address[i] is P2p) || (
        address[i] is P2pCircuit));
    }
}

/// What is left of an address for dialling is put together from what is left of its parts.
pub proof fn law_address_is_sanitized_part_by_part(a: Seq<PartView>, b: Seq<PartView>)
    ensures
        direct_parts(a + b) == direct_parts(a) + direct_parts(b),
    decreases b.len(),
{
    if b.len() == 0 {
        assert(a + b =~= a);
        assert(direct_parts(a) + direct_parts(b) =~= direct_parts(a));
    } else {
        law_address_is_sanitized_part_by_part(a, b.drop_last());
        assert((a + b).drop_last() =~= a + b.drop_last());
        assert((a + b).last() == b.last());
        assert(direct_parts(a + b) =~= direct_parts(a) + direct_parts(b));
    }
}

/// Of single parts those that can be dialled stay as they are, the others vanish.
pub proof fn law_dialable_part_stays(ip: Seq<u8>, port: u16, other: PartView)
    requires
        !(other is Ip4) && !(other is Ip6) && !(other is Tcp),
    ensures
        is_dialable(IpView::V4(ip)) ==> direct_parts(seq![PartView::Ip4(ip)])
            == seq![DirectPartView::Ip4(ip)],
        !is_dialable(IpView::V4(ip)) ==> direct_parts(seq![PartView::Ip4(ip)]).len() == 0,
        is_dialable(IpView::V6(ip)) ==> direct_parts(seq![PartView::Ip6(ip)])
            == seq![DirectPartView::Ip6(ip)],
        !is_dialable(IpView::V6(ip)) ==> direct_parts(seq![PartView::Ip6(ip)]).len() == 0,
        direct_parts(seq![PartView::Tcp(port)]) == seq![DirectPartView::Tcp(port)],
        direct_parts(seq![other]).len() == 0,
{
    let none = Seq::<DirectPartView>::empty();
    assert(seq![PartView::Ip4(ip)].drop_last() =~= Seq::<PartView>::empty());
    assert(seq![PartView::Ip6(ip)].drop_last() =~= Seq::<PartView>::empty());
    assert(seq![PartView::Tcp(port)].drop_last() =~= Seq::<PartView>::empty());
    assert(seq![other].drop_last() =~= Seq::<PartView>::empty());
    assert(seq![PartView::Ip4(ip)].last() == PartView::Ip4(ip));
    assert(seq![PartView::Ip6(ip)].last() == PartView::Ip6(ip));
    assert(seq![PartView::Tcp(port)].last() == PartView::Tcp(port));
    assert(seq![other].last() == other);
    assert(direct_parts(Seq::<PartView>::empty()) =~= none);
    assert(none.push(DirectPartView::Ip4(ip)) =~= seq![DirectPartView::Ip4(ip)]);
    assert(none.push(DirectPartView::Ip6(ip)) =~= seq![DirectPartView::Ip6(ip)]);
    assert(none.push(DirectPartView::Tcp(port)) =~= seq![DirectPartView::Tcp(port)]);
}

/// An ordinary address and port are dialled as they are; through a relay they are not dialled
/// directly.
pub proof fn law_plain_address_is_dialled(ip: Seq<u8>, port: u16, rest: Seq<PartView>)
    requires
        is_dialable(IpView::V4(ip)),
    ensures
        sanitized(seq![PartView::Ip4(ip), PartView::Tcp(port)]) == Some(
            seq![DirectPartView::Ip4(ip), DirectPartView::Tcp(port)],
        ),
        sanitized(seq![PartView::P2pCircuit] + rest) is None,
{
    let address = seq![PartView::Ip4(ip), PartView::Tcp(port)];
    let first = seq![PartView::Ip4(ip)];
    let second = seq![PartView::Tcp(port)];
    assert(address =~= first + second);
    law_address_is_sanitized_part_by_part(first, second);
    law_dialable_part_stays(ip, port, PartView::P2pCircuit);
    let parts = direct_parts(address);
    assert(parts =~= seq![DirectPartView::Ip4(ip), DirectPartView::Tcp(port)]);
    assert(!(parts[0] is Tcp));
    assert(parts[1] is Tcp);
    assert(!is_relayed(address));
    assert((seq![PartView::P2pCircuit] + rest)[0] is P2pCircuit);
}

/// An address without a port, or without anywhere to dial, is not dialled.
pub proof fn law_incomplete_address_is_not_dialled(address: Seq<PartView>)
    requires
        (forall|i: int| 0 <= i < address.len() ==> !(#[trigger] address[i] is Tcp)) || (forall|
            i: int,
        |
            0 <= i < address.len() ==> !(#[trigger] address[i] is Ip4) && !(address[i] is Ip6)),
    ensures
        sanitized(address) is None,
{
    if forall|i: int| 0 <= i < address.len() ==> !(#[trigger] address[i] is Tcp) {
        lemma_no_tcp(address);
    } else {
        lemma_no_ip(address);
    }
}

proof fn lemma_no_tcp(address: Seq<PartView>)
    requires
        forall|i: int| 0 <= i < address.len() ==> !(#[trigger] address[i] is Tcp),
    ensures
        !has_tcp(direct_parts(address)),
    decreases address.len(),
{
    if address.len() > 0 {
        let rest = address.drop_last();
        assert forall|i: int| 0 <= i < rest.len() implies !(#[trigger] rest[i] is Tcp) by {
            assert(rest[i] == address[i]);
        }
        lemma_no_tcp(rest);
        assert(!(address[address.len() - 1] is Tcp));
        let before = direct_parts(rest);
        let parts = direct_parts(address);
        assert forall|i: int| 0 <= i < parts.len() implies !(#[trigger] parts[i] is Tcp) by {
            if i < before.len() {
                assert(parts[i] == before[i]);
            }
        }
    }
}

proof fn lemma_no_ip(address: Seq<PartView>)
    requires
        forall|i: int|
            0 <= i < address.len() ==> !(#[trigger] address[i] is Ip4) && !(address[i] is Ip6),
    ensures
        !has_ip(direct_parts(address)),
    decreases address.len(),
{
    if address.len() > 0 {
        let rest = address.drop_last();
        assert forall|i: int| 0 <= i < rest.len() implies !(#[trigger] rest[i] is Ip4) && !(
        rest[i] is Ip6) by {
            assert(rest[i] == address[i]);
        }
        lemma_no_ip(rest);
        assert(!(address[address.len() - 1] is Ip4) && !(address[address.len() - 1] is Ip6));
        let before = direct_parts(rest);
        let parts = direct_parts(address);
        assert forall|i: int| 0 <= i < parts.len() implies (#[trigger] parts[i] is Tcp) by {
            if i < before.len() {
                assert(parts[i] == before[i]);
            }
        }
    }
}

/// Of several addresses each that can be dialled is kept, in its order, and no other.
pub proof fn law_dialable_texts_are_kept_in_order(
    a: Seq<Seq<char>>,
    b: Seq<Seq<char>>,
    text: Seq<char>,
)
    ensures
        sanitized_texts(a + b) == sanitized_texts(a) + sanitized_texts(b),
        sanitized_text(text) matches Some(kept) ==> sanitized_texts(seq![text]) == seq![kept],
        sanitized_text(text) is None ==> sanitized_texts(seq![text]).len() == 0,
    decreases b.len(),
{
    let one = seq![text];
    assert(one.drop_last() =~= Seq::<Seq<char>>::empty());
    assert(one.last() == text);
    assert(sanitized_texts(one.drop_last()) =~= Seq::<Seq<char>>::empty());
    if let Some(kept) = sanitized_text(text) {
        assert(Seq::<Seq<char>>::empty().push(kept) =~= seq![kept]);
    }
    if b.len() == 0 {
        assert(a + b =~= a);
        assert(sanitized_texts(a) + sanitized_texts(b) =~= sanitized_texts(a));
    } else {
        law_dialable_texts_are_kept_in_order(a, b.drop_last(), text);
        assert((a + b).drop_last() =~= a + b.drop_last());
        assert((a + b).last() == b.last());
        assert(sanitized_texts(a + b) =~= sanitized_texts(a) + sanitized_texts(b));
    }
}

/// The text of an address is dialled as what is left of the address that it reads as.
pub proof fn law_text_is_dialled_as_its_address(text: Seq<char>)
    ensures
        parsed_address(text) is None ==> sanitized_text(text) is None,
        parsed_address(text) matches Some(address) ==> sanitized_text(text) == match sanitized(
            address,
        ) {
            Some(parts) => Some(direct_text(parts)),
            None => None,
        },
{
}

/// What a listener publishes is put together part by part, unless a part cannot be published.
pub proof fn law_listener_is_published_part_by_part(
    a: Seq<PartView>,
    b: Seq<PartView>,
    lan: Option<IpView>,
)
    ensures
        listener_parts(a + b, lan) == match (listener_parts(a, lan), listener_parts(b, lan)) {
            (Some(first), Some(second)) => Some(first + second),
            _ => None,
        },
    decreases b.len(),
{
    if b.len() == 0 {
        assert(a + b =~= a);
        if let Some(first) = listener_parts(a, lan) {
            assert(first + Seq::<DirectPartView>::empty() =~= first);
        }
    } else {
        law_listener_is_published_part_by_part(a, b.drop_last(), lan);
        assert((a + b).drop_last() =~= a + b.drop_last());
        assert((a + b).last() == b.last());
        if listener_parts(a, lan) is Some && listener_parts(b, lan) is Some {
            assert((listener_parts(a + b, lan)->0) =~= (listener_parts(a, lan)->0) + (
            listener_parts(b, lan)->0));
        }
    }
}

/// A listener on all addresses is published at the address in the local network; one on an
/// address of the own machine is not published, and any other as it is.
pub proof fn law_listener_on_all_is_published_in_the_network(
    ip: Seq<u8>,
    lan: Seq<u8>,
    port: u16,
)
    requires
        ip.len() == 4,
    ensures
        ip == seq![0u8, 0u8, 0u8, 0u8] ==> listener_parts(
            seq![PartView::Ip4(ip)],
            Some(IpView::V4(lan)),
        ) == Some(seq![DirectPartView::Ip4(lan)]),
        ip == seq![0u8, 0u8, 0u8, 0u8] ==> listener_parts(seq![PartView::Ip4(ip)], None) is None,
        ip[0] == 127 ==> listener_parts(seq![PartView::Ip4(ip)], Some(IpView::V4(lan))) == Some(
            Seq::<DirectPartView>::empty(),
        ),
        1 <= ip[0] && ip[0] != 127 ==> listener_parts(
            seq![PartView::Ip4(ip)],
            Some(IpView::V4(lan)),
        ) == Some(seq![DirectPartView::Ip4(ip)]),
        listener_parts(seq![PartView::Tcp(port)], None) == Some(seq![DirectPartView::Tcp(port)]),
{
    let none = Seq::<DirectPartView>::empty();
    let address = seq![PartView::Ip4(ip)];
    assert(address.drop_last() =~= Seq::<PartView>::empty());
    assert(address.last() == PartView::Ip4(ip));
    assert(listener_parts(address.drop_last(), Some(IpView::V4(lan))) == Some(none));
    assert(listener_parts(Seq::<PartView>::empty(), None) == Some(none));
    let ports = seq![PartView::Tcp(port)];
    assert(ports.drop_last() =~= Seq::<PartView>::empty());
    assert(ports.last() == PartView::Tcp(port));
    assert(none.push(DirectPartView::Ip4(lan)) =~= seq![DirectPartView::Ip4(lan)]);
    assert(none.push(DirectPartView::Ip4(ip)) =~= seq![DirectPartView::Ip4(ip)]);
    assert(none.push(DirectPartView::Tcp(port)) =~= seq![DirectPartView::Tcp(port)]);
}

/// A listener through a relay is not published as a direct address.
pub proof fn law_relayed_listener_is_not_published(
    address: Seq<PartView>,
    lan: Option<IpView>,
    i: int,
)
    requires
        0 <= i < address.len(),
        address[i] is P2pCircuit,
    ensures
        listener_address(address, lan) is None,
{
    assert(is_relayed(address));
}

/// What is published has both an internet address and a port.
pub proof fn law_published_address_is_complete(address: Seq<PartView>, lan: Option<IpView>)
    requires
        published(address, lan) is Some,
    ensures
        exists|i: int|
            0 <= i < (published(address, lan)->0).len() && !(#[trigger] (published(
                address,
                lan,
            )->0)[i] is Tcp),
        exists|i: int|
            0 <= i < (published(address, lan)->0).len() && (#[trigger] (published(
                address,
                lan,
            )->0)[i] is Tcp),
{
}

/// The peer of an address is the last one that it names.
pub proof fn law_last_peer_is_named(address: Seq<PartView>, peer: Seq<char>, part: PartView)
    requires
        !(part is P2p),
    ensures
        named_peer(address.push(PartView::P2p(peer))) == Some(peer),
        named_peer(address.push(part)) == named_peer(address),
        named_peer(Seq::<PartView>::empty()) is None,
{
    assert(address.push(PartView::P2p(peer)).drop_last() =~= address);
    assert(address.push(part).drop_last() =~= address);
}

/// Without its peers an address holds all its other parts in their order.
pub proof fn law_peers_are_stripped(address: Seq<PartView>, peer: Seq<char>, part: PartView)
    requires
        !(part is P2p),
    ensures
        without_peers(address.push(PartView::P2p(peer))) == without_peers(address),
        without_peers(address.push(part)) == without_peers(address).push(part),
        without_peers(Seq::<PartView>::empty()) == Seq::<PartView>::empty(),
{
    assert(address.push(PartView::P2p(peer)).drop_last() =~= address);
    assert(address.push(part).drop_last() =~= address);
}

/// A way through a relay begins with the relay's own address and ends with the target.
pub proof fn law_relay_way_begins_with_relay(relay: Seq<PartView>, peer: Seq<char>)
    ensures
        through_relay(relay, peer).take(relay.len() as int) == relay,
        through_relay(relay, peer).len() == relay.len() + 2,
        through_relay(relay, peer)[relay.len() as int] is P2pCircuit,
        through_relay(relay, peer).last() == PartView::P2p(peer),
{
    assert(through_relay(relay, peer).take(relay.len() as int) =~= relay);
}

/// The target is dialled through every relay that has a name, in their order.
pub proof fn law_every_named_relay_is_used(
    relays: Seq<Seq<PartView>>,
    relay: Seq<PartView>,
    peer: Seq<char>,
)
    ensures
        named_peer(relay) is Some ==> through_relays(relays.push(relay), peer) == through_relays(
            relays,
            peer,
        ).push(through_relay(relay, peer)),
        named_peer(relay) is None ==> through_relays(relays.push(relay), peer) == through_relays(
            relays,
            peer,
        ),
        through_relays(Seq::<Seq<PartView>>::empty(), peer).len() == 0,
{
    assert(relays.push(relay).drop_last() =~= relays);
}

/// The address of an app is where its last internet address and port say; an unspecified
/// internet address is replaced by the one at which the peer was met.
pub proof fn law_app_socket_follows_address(
    address: Seq<PartView>,
    ip: Seq<u8>,
    port: u16,
    fallback: Option<IpView>,
)
    requires
        ip.len() == 4,
        ip[0] != 0,
    ensures
        app_socket(address.push(PartView::Ip4(ip)).push(PartView::Udp(port)), fallback) == Ok::<
            (IpView, u16),
            AppAddressError,
        >((IpView::V4(ip), port)),
{
    let middle = address.push(PartView::Ip4(ip));
    let whole = middle.push(PartView::Udp(port));
    assert(whole.drop_last() =~= middle);
    assert(middle.last() == PartView::Ip4(ip));
    assert(last_ip(whole) == last_ip(middle));
}

/// An app without an internet address or without a port is not found.
pub proof fn law_incomplete_app_address_is_refused(
    address: Seq<PartView>,
    fallback: Option<IpView>,
)
    ensures
        last_ip(address) is None ==> app_socket(address, fallback) == Err::<
            (IpView, u16),
            AppAddressError,
        >(AppAddressError::MissingIp),
        last_ip(address) matches Some(ip) && !is_unspecified(ip) && last_port(address) is None
            ==> app_socket(address, fallback) == Err::<(IpView, u16), AppAddressError>(
            AppAddressError::MissingPort,
        ),
        last_ip(address) matches Some(ip) && is_unspecified(ip) && fallback is None
            ==> app_socket(address, fallback) == Err::<(IpView, u16), AppAddressError>(
            AppAddressError::UnknownPeerIp,
        ),
{
}

/// The address at which a peer is known is the first one that says where it is.
pub proof fn law_first_known_address_counts(
    ip: Seq<u8>,
    rest: Seq<PartView>,
    others: Seq<Seq<PartView>>,
    silent: Seq<PartView>,
)
    requires
        ip.len() == 4,
        ip[0] != 0,
        first_ip(silent) is None,
    ensures
        first_ip(seq![PartView::Ip4(ip)] + rest) == Some(IpView::V4(ip)),
        first_known_ip(seq![seq![PartView::Ip4(ip)] + rest] + others) == Some(IpView::V4(ip)),
        first_known_ip(seq![silent] + others) == first_known_ip(others),
{
    let address = seq![PartView::Ip4(ip)] + rest;
    assert(address[0] == PartView::Ip4(ip));
    let all = seq![address] + others;
    assert(all[0] == address);
    let more = seq![silent] + others;
    assert(more[0] == silent);
    assert(more.drop_first() =~= others);
}

/// A remote address is usable unless it is unspecified or that of the own machine.
pub proof fn law_own_machine_is_not_remote(ip: Seq<u8>)
    requires
        ip.len() == 4,
    ensures
        is_usable(IpView::V4(ip)) <==> ip != seq![0u8, 0u8, 0u8, 0u8] && ip[0] != 127,
        is_unspecified(IpView::V4(ip)) <==> ip == seq![0u8, 0u8, 0u8, 0u8],
{
    if ip[0] == 0 && ip[1] == 0 && ip[2] == 0 && ip[3] == 0 {
        assert(ip =~= seq![0u8, 0u8, 0u8, 0u8]);
    }
}

/// A listener on all of the longer addresses cannot be published, one on that of the own
/// machine is left out, and any other is published as it is.
pub proof fn law_longer_listener_is_published_as_it_is(ip: Seq<u8>, lan: Option<IpView>)
    requires
        ip.len() == 16,
    ensures
        ({
            let zeros = forall|i: int| 0 <= i < 15 ==> #[trigger] ip[i] == 0;
            let address = seq![PartView::Ip6(ip)];
            &&& zeros && ip[15] == 0 ==> listener_parts(address, lan) is None
            &&& zeros && ip[15] == 1 ==> listener_parts(address, lan) == Some(
                Seq::<DirectPartView>::empty(),
            )
            &&& ip[0] != 0 ==> listener_parts(address, lan) == Some(seq![DirectPartView::Ip6(ip)])
        }),
{
    let none = Seq::<DirectPartView>::empty();
    let address = seq![PartView::Ip6(ip)];
    assert(address.drop_last() =~= Seq::<PartView>::empty());
    assert(address.last() == PartView::Ip6(ip));
    assert(listener_parts(address.drop_last(), lan) == Some(none));
    assert(none.push(DirectPartView::Ip6(ip)) =~= seq![DirectPartView::Ip6(ip)]);
}

/// A service at an address of the longer kind is public unless the address is local.
pub proof fn law_public_v6_is_public(ip: Seq<u8>)
    requires
        ip.len() == 16,
    ensures
        ip[0] == 0xfc || ip[0] == 0xfd || ip[0] == 0xff || (ip[0] == 0xfe && 0x80 <= ip[1] <= 0xbf)
            ==> !is_public_part(PartView::Ip6(ip)),
        1 <= ip[0] <= 0xfb ==> is_public_part(PartView::Ip6(ip)),
{
}

} // verus!
