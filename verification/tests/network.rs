//! The pairing service and the two sides of pairing.

use ciphermesh::address::{
    direct_address_from_listener, direct_address_text, direct_listen_address, multiaddr_ip,
    peer_id_from_service_addr, sanitize_direct_address_text, service_address,
    service_address_is_public, Address, IpAddress, Part, ServiceAddressError,
};
use ciphermesh::invite::generate_invite_code;
use ciphermesh::pairing::{
    join_acknowledged, peer_lost_all_connections, AckStep, ChatLine, ClosedStep, HostInvite,
    HostNews, HostReply, JoinInvite, JoinNews, JoinStep, PairingChat, PairingFailure,
    CHAT_IDLE_CONNECTION_TIMEOUT_NANOS, CHAT_IDLE_CONNECTION_TIMEOUT_SECS,
};
use ciphermesh::service::{
    human_service_error, is_expected_service, service_key_action, KeyAction, KeyFile,
    PairingRequest, PairingResponse, PublicService, DEFAULT_PAIRING_SERVICE_ADDR,
    DEFAULT_PAIRING_SERVICE_PEER_ID, DEFAULT_SERVICE_IDENTITY_PATH,
};
use libp2p::PeerId;
use std::time::Duration;

#[test]
fn chat_marks_offline_only_after_the_targets_last_connection_closes() {
    let target = PeerId::random().to_string();
    let other = PeerId::random().to_string();

    assert!(!peer_lost_all_connections(&target, &target, 1));
    assert!(!peer_lost_all_connections(&other, &target, 0));
    assert!(peer_lost_all_connections(&target, &target, 0));
}

#[test]
fn active_chat_connections_do_not_expire_for_inactivity() {
    assert_eq!(
        Duration::new(CHAT_IDLE_CONNECTION_TIMEOUT_SECS, CHAT_IDLE_CONNECTION_TIMEOUT_NANOS),
        Duration::MAX
    );
}

#[test]
fn built_in_service_endpoint_is_the_public_oracle_service() {
    let address = Address::parse(DEFAULT_PAIRING_SERVICE_ADDR).unwrap();
    assert!(service_address_is_public(&address));
    assert_eq!(
        peer_id_from_service_addr(&address).unwrap(),
        DEFAULT_PAIRING_SERVICE_PEER_ID
    );
}

#[test]
fn production_service_identity_path_is_absolute_and_canonical() {
    assert_eq!(
        DEFAULT_SERVICE_IDENTITY_PATH,
        "/var/lib/ciphermesh/service.key"
    );
    assert!(DEFAULT_SERVICE_IDENTITY_PATH.starts_with('/'));
}

#[test]
fn wildcard_and_loopback_addresses_are_never_dialable() {
    for address in [
        "/ip4/0.0.0.0/tcp/5000",
        "/ip4/127.0.0.1/tcp/5000",
        "/ip6/::/tcp/5000",
        "/ip6/::1/tcp/5000",
    ] {
        assert!(sanitize_direct_address_text(address).is_none());
    }
    assert_eq!(
        sanitize_direct_address_text("/ip4/192.168.1.20/tcp/5000").as_deref(),
        Some("/ip4/192.168.1.20/tcp/5000")
    );
    let relay_peer = PeerId::random();
    let target_peer = PeerId::random();
    assert!(sanitize_direct_address_text(&format!(
        "/ip4/192.168.1.20/tcp/4001/p2p/{relay_peer}/p2p-circuit/p2p/{target_peer}"
    ))
    .is_none());
}

#[test]
fn private_service_addresses_are_rejected() {
    let peer = PeerId::random();
    let private =
        Address::parse(&format!("/ip4/10.197.119.208/tcp/4001/p2p/{peer}")).unwrap();
    assert!(!service_address_is_public(&private));
    let public = Address::parse(&format!("/ip4/8.8.8.8/tcp/4001/p2p/{peer}")).unwrap();
    assert!(service_address_is_public(&public));
}

#[test]
fn invite_code_is_the_only_user_facing_invite_value() {
    let code = generate_invite_code().unwrap();
    assert_eq!(code.len(), 6);
    assert!(!code.contains('.'));
    assert!(!code.contains('/'));
    assert!(!code.contains(':'));
}

#[test]
fn addresses_of_every_kind_are_judged() {
    for (address, dialable) in [
        ("/ip4/169.254.1.1/tcp/1", false),
        ("/ip4/224.0.0.1/tcp/1", false),
        ("/ip4/239.255.255.255/tcp/1", false),
        ("/ip4/255.255.255.255/tcp/1", false),
        ("/ip4/192.0.2.7/tcp/1", false),
        ("/ip4/198.51.100.7/tcp/1", false),
        ("/ip4/203.0.113.7/tcp/1", false),
        ("/ip4/10.0.0.1/tcp/1", true),
        ("/ip4/240.0.0.1/tcp/1", true),
        ("/ip6/fe80::1/tcp/1", false),
        ("/ip6/febf::1/tcp/1", false),
        ("/ip6/fec0::1/tcp/1", true),
        ("/ip6/ff02::1/tcp/1", false),
        ("/ip6/fd00::1/tcp/1", true),
        ("/ip6/2001:db8::1/tcp/1", true),
        ("/ip4/10.0.0.1/udp/1", false),
        ("/tcp/1", false),
        ("no address", false),
        ("/dns4/example.org/tcp/1", false),
    ] {
        assert_eq!(sanitize_direct_address_text(address).is_some(), dialable, "{address}");
    }
    assert_eq!(
        sanitize_direct_address_text("/ip6/2001:DB8:0::1/tcp/080").as_deref(),
        Some("/ip6/2001:db8::1/tcp/80")
    );
    for (address, public) in [
        ("/ip4/172.16.0.1/tcp/1", false),
        ("/ip4/172.31.0.1/tcp/1", false),
        ("/ip4/172.32.0.1/tcp/1", true),
        ("/ip4/192.168.0.1/tcp/1", false),
        ("/ip4/127.0.0.1/tcp/1", false),
        ("/ip4/203.0.113.7/tcp/1", false),
        ("/ip6/fd00::1/tcp/1", false),
        ("/ip6/fc00::1/tcp/1", false),
        ("/ip6/::1/tcp/1", false),
        ("/ip6/2001:db8::1/tcp/1", true),
        ("/dns/example.org/tcp/1", true),
        ("/dns6/example.org/tcp/1", true),
        ("/tcp/1", false),
    ] {
        let parsed = Address::parse(address).unwrap();
        assert_eq!(service_address_is_public(&parsed), public, "{address}");
    }
}

#[test]
fn service_addresses_are_refused_with_a_reason() {
    let peer = PeerId::random();
    assert_eq!(service_address("nonsense"), Err(ServiceAddressError::Invalid));
    assert_eq!(
        service_address("/ip4/8.8.8.8/tcp/1"),
        Err(ServiceAddressError::Incomplete)
    );
    assert_eq!(
        service_address(&format!("/ip4/10.0.0.1/tcp/1/p2p/{peer}")),
        Err(ServiceAddressError::NotPublic)
    );
    assert!(service_address(&format!("/ip4/8.8.8.8/tcp/1/p2p/{peer}")).is_ok());
    assert_eq!(
        ServiceAddressError::NotPublic.message(),
        "CipherMesh pairing service must use a publicly reachable address."
    );
}

#[test]
fn listeners_are_published_with_the_address_in_the_network() {
    let any = Address::parse("/ip4/0.0.0.0/tcp/7000").unwrap();
    let lan = IpAddress::V4([192, 168, 1, 5]);
    let direct = direct_address_from_listener(&any, Some(lan)).unwrap();
    assert_eq!(direct_address_text(&direct), "/ip4/192.168.1.5/tcp/7000");
    assert!(direct_address_from_listener(&any, None).is_none());
    assert!(direct_address_from_listener(&any, Some(IpAddress::V6([1; 16]))).is_none());
    let any6 = Address::parse("/ip6/::/tcp/7000").unwrap();
    assert!(direct_address_from_listener(&any6, Some(lan)).is_none());
    let local = Address::parse("/ip4/127.0.0.1/tcp/7000").unwrap();
    assert!(direct_address_from_listener(&local, Some(lan)).is_none());
    assert_eq!(
        direct_listen_address(lan).parts,
        vec![Part::Ip4([192, 168, 1, 5]), Part::Tcp(0)]
    );
    assert_eq!(multiaddr_ip(&any), None);
    assert_eq!(multiaddr_ip(&local), Some(IpAddress::V4([127, 0, 0, 1])));
}

fn register(code: &str, expires_at_unix_secs: u64, addresses: &[&str]) -> PairingRequest {
    PairingRequest::RegisterInvite {
        code_hash: code.to_string(),
        expires_at_unix_secs,
        direct_addresses: addresses.iter().map(|text| text.to_string()).collect(),
    }
}

fn resolve(code: &str) -> PairingRequest {
    PairingRequest::ResolveInvite { code_hash: code.to_string() }
}

fn refused(text: &str) -> PairingResponse {
    PairingResponse::Error(text.to_string())
}

const USED: &str = "Invite is invalid, expired, or already used.";

#[test]
fn service_registers_after_reservation_and_resolves_once() {
    let mut service = PublicService::new();
    let request = || register("code", 1300, &["/ip4/127.0.0.1/tcp/1", "/ip4/10.0.0.9/tcp/1"]);
    assert_eq!(
        service.answer("host", request(), 1000),
        refused("relay reservation is not ready; retrying")
    );
    service.reservation_accepted("host");
    assert_eq!(service.answer("host", request(), 1000), PairingResponse::Registered);
    assert_eq!(
        service.answer("joiner", resolve("code"), 1001),
        PairingResponse::Resolved {
            peer_id: "host".to_string(),
            direct_addresses: vec!["/ip4/10.0.0.9/tcp/1".to_string()],
        }
    );
    assert_eq!(service.answer("joiner", resolve("code"), 1001), refused(USED));
}

#[test]
fn service_forgets_expired_and_abandoned_invites() {
    let mut service = PublicService::new();
    service.reservation_accepted("host");
    service.reservation_accepted("other");
    assert_eq!(service.answer("host", register("a", 1300, &[]), 1000), PairingResponse::Registered);
    assert_eq!(service.answer("other", register("b", 1300, &[]), 1000), PairingResponse::Registered);
    assert_eq!(service.answer("joiner", resolve("a"), 1300), refused(USED));
    assert_eq!(service.invitations.len(), 0);
    assert_eq!(service.answer("host", register("a", 1500, &[]), 1300), PairingResponse::Registered);
    assert_eq!(service.answer("other", register("b", 1500, &[]), 1300), PairingResponse::Registered);
    service.reservation_ended("host");
    assert_eq!(service.answer("joiner", resolve("a"), 1301), refused(USED));
    assert_eq!(
        service.answer("joiner", resolve("b"), 1301),
        PairingResponse::Resolved { peer_id: "other".to_string(), direct_addresses: vec![] }
    );
}

#[test]
fn service_refuses_bad_registrations() {
    let mut service = PublicService::new();
    service.reservation_accepted("host");
    service.reservation_accepted("other");
    for expiry in [999, 1000, 1301] {
        assert_eq!(
            service.answer("host", register("a", expiry, &[]), 1000),
            refused("invalid invite expiry")
        );
    }
    assert_eq!(service.answer("host", register("a", 1300, &[]), 1000), PairingResponse::Registered);
    assert_eq!(
        service.answer("other", register("a", 1300, &[]), 1000),
        refused("invite code collision; try again")
    );
    assert_eq!(service.answer("host", register("a", 1200, &[]), 1000), PairingResponse::Registered);
    assert_eq!(
        service.answer("host", PairingRequest::PreKeyBundle, 1000),
        refused("unsupported service request")
    );
}

#[test]
fn service_errors_are_told_to_the_user() {
    assert_eq!(human_service_error(USED), USED);
    assert_eq!(human_service_error("invalid invite expiry"), USED);
    assert_eq!(
        human_service_error("invite code collision; try again"),
        "Pairing service is temporarily unavailable. Please try again."
    );
}

#[test]
fn the_permanent_key_is_never_replaced() {
    let path = DEFAULT_SERVICE_IDENTITY_PATH;
    assert_eq!(service_key_action(path, KeyFile::Missing), KeyAction::RefuseMissing);
    assert_eq!(service_key_action("/tmp/key", KeyFile::Missing), KeyAction::Create);
    assert_eq!(service_key_action(path, KeyFile::Read), KeyAction::Use);
    assert_eq!(service_key_action("/tmp/key", KeyFile::Unreadable), KeyAction::RefuseUnreadable);
    assert!(is_expected_service(path, DEFAULT_PAIRING_SERVICE_PEER_ID));
    assert!(!is_expected_service(path, "another"));
    assert!(is_expected_service("/tmp/key", "another"));
}

#[test]
fn host_registers_once_reservation_and_listener_are_there() {
    let mut host = HostInvite::new("service", "code", 1300, true);
    let lan = Some(IpAddress::V4([10, 0, 0, 2]));
    assert!(!host.reservation_accepted("elsewhere", false));
    assert!(!host.reservation_accepted("service", false));
    let relayed = Address { parts: vec![Part::P2pCircuit] };
    assert!(host.listening_on(&relayed, lan).is_none());
    let listener = Address::parse("/ip4/0.0.0.0/tcp/9").unwrap();
    let (parts, register) = host.listening_on(&listener, lan).unwrap();
    assert!(register);
    assert_eq!(direct_address_text(&parts), "/ip4/10.0.0.2/tcp/9");
    assert!(!host.listening_on(&listener, lan).unwrap().1);
    assert_eq!(
        host.registration(),
        PairingRequest::RegisterInvite {
            code_hash: "code".to_string(),
            expires_at_unix_secs: 1300,
            direct_addresses: vec!["/ip4/10.0.0.2/tcp/9".to_string()],
        }
    );
    assert_eq!(host.setup_timed_out(), Some(PairingFailure::ServiceUnavailable));
    assert_eq!(host.invite_timed_out(), None);
    assert_eq!(host.request("friend", &PairingRequest::PreKeyBundle), HostReply::Ignore);
    assert_eq!(host.response("service", &PairingResponse::Registered), HostNews::ShowCode);
    assert_eq!(host.response("service", &PairingResponse::Registered), HostNews::Nothing);
    assert_eq!(host.setup_timed_out(), None);
    assert_eq!(host.invite_timed_out(), Some(PairingFailure::InviteExpired));
    assert_eq!(host.request("friend", &PairingRequest::PreKeyBundle), HostReply::SendBundle);
    assert_eq!(host.request("service", &PairingRequest::PreKeyBundle), HostReply::Ignore);
    assert_eq!(
        host.request("friend", &PairingRequest::InitialMessage(vec![1])),
        HostReply::OpenInitialMessage
    );
    assert_eq!(
        host.request("friend", &PairingRequest::ChatFrame(vec![1])),
        HostReply::Refuse
    );
    assert!(host.relay_listener_closed());
    assert!(!host.relay_listener_closed());
    assert!(!host.reservation_accepted("service", true));
    assert!(host.reservation_accepted("service", false));
    assert_eq!(
        host.response("service", &PairingResponse::Error("busy".to_string())),
        HostNews::Fail(PairingFailure::ServiceBusy)
    );
    assert_eq!(
        host.response("service", &PairingResponse::Error("code expired".to_string())),
        HostNews::Fail(PairingFailure::InviteRefused)
    );
}

#[test]
fn join_tries_direct_addresses_before_the_relay() {
    let target = PeerId::random().to_string();
    let mut join = JoinInvite::new("service", "code");
    assert_eq!(join.connected("service", true), JoinStep::Nothing);
    assert_eq!(join.connected("service", false), JoinStep::LookUpInvite);
    assert_eq!(join.connected("service", false), JoinStep::Nothing);
    assert_eq!(join.lookup(), resolve("code"));
    assert!(!join.grace_elapsed());
    let resolved = PairingResponse::Resolved {
        peer_id: target.clone(),
        direct_addresses: vec![
            "/ip4/127.0.0.1/tcp/1".to_string(),
            "/ip4/10.0.0.2/tcp/9".to_string(),
        ],
    };
    assert_eq!(join.response("elsewhere", &resolved), JoinNews::Nothing);
    assert_eq!(
        join.response("service", &resolved),
        JoinNews::DialDirect(vec!["/ip4/10.0.0.2/tcp/9".to_string()])
    );
    assert!(!join.dial_failed("elsewhere"));
    assert!(join.dial_failed(&target));
    assert!(!join.dial_failed(&target));
    assert!(!join.grace_elapsed());
    assert_eq!(join.connected(&target, true), JoinStep::RequestBundle);
    assert_eq!(join.connected(&target, false), JoinStep::Nothing);
    assert_eq!(
        join.response(&target, &PairingResponse::PreKeyBundle(vec![1])),
        JoinNews::Bundle
    );
    let nearby = Address::parse("/ip4/10.0.0.2/tcp/9").unwrap();
    assert!(join.found_nearby(&target, &nearby).is_some());
    assert!(join.found_nearby("elsewhere", &nearby).is_none());
    assert_eq!(join.timed_out(), PairingFailure::NoConnection);
}

#[test]
fn join_uses_the_relay_without_direct_addresses() {
    let target = PeerId::random().to_string();
    let mut join = JoinInvite::new("service", "code");
    assert_eq!(
        join.response(
            "service",
            &PairingResponse::Resolved {
                peer_id: target.clone(),
                direct_addresses: vec!["/ip4/127.0.0.1/tcp/1".to_string()],
            }
        ),
        JoinNews::DialThroughRelay
    );
    assert!(!join.grace_elapsed());
    assert_eq!(
        join.response(
            "service",
            &PairingResponse::Resolved {
                peer_id: "not a peer".to_string(),
                direct_addresses: vec![],
            }
        ),
        JoinNews::Fail(PairingFailure::InvalidPeer)
    );
    assert_eq!(
        join.response("service", &refused(USED)),
        JoinNews::Fail(PairingFailure::InviteRefused)
    );
    assert_eq!(
        join_acknowledged(&target, &target, &PairingResponse::Ack("paired".to_string())),
        AckStep::Connected
    );
    assert_eq!(
        join_acknowledged(&target, "elsewhere", &PairingResponse::Ack("paired".to_string())),
        AckStep::KeepWaiting
    );
}

#[test]
fn chat_queues_while_its_peer_is_away() {
    let mut chat = PairingChat::new("peer");
    assert_eq!(chat.line("hello"), ChatLine::Send);
    assert_eq!(chat.line(""), ChatLine::Nothing);
    assert_eq!(chat.line("/back"), ChatLine::Leave);
    assert!(!chat.wants_reconnect());
    assert_eq!(chat.closed("peer", 1), ClosedStep { announce: false, reconnect: false });
    assert_eq!(chat.closed("other", 0), ClosedStep { announce: false, reconnect: false });
    assert_eq!(chat.closed("peer", 0), ClosedStep { announce: true, reconnect: true });
    assert_eq!(chat.closed("peer", 0), ClosedStep { announce: false, reconnect: true });
    assert_eq!(chat.line("hello"), ChatLine::Queue);
    assert!(chat.wants_reconnect());
    assert!(!chat.connected("other"));
    assert!(chat.connected("peer"));
    assert!(!chat.connected("peer"));
    assert_eq!(chat.line("hello"), ChatLine::Send);
}

#[test]
fn pairing_failures_are_told_to_the_user() {
    for (failure, text) in [
        (
            PairingFailure::ServiceUnavailable,
            "Pairing service is unavailable. Please try again.",
        ),
        (PairingFailure::InviteExpired, "Invite expired. Please create a new invite."),
        (PairingFailure::InviteRefused, USED),
        (
            PairingFailure::ServiceBusy,
            "Pairing service is temporarily unavailable. Please try again.",
        ),
        (
            PairingFailure::NoConnection,
            "Could not connect. Please create a new invite and try again.",
        ),
        (PairingFailure::InvalidPeer, "service returned an invalid peer"),
        (
            PairingFailure::NotAcknowledged,
            "Pairing timed out. Please create a new invite.",
        ),
        (PairingFailure::NotDelivered, "Could not complete pairing"),
    ] {
        assert_eq!(failure.message(), text);
    }
}
