//! The rules of the interface: invite codes, names, commands, ids, addresses.

use ciphermesh::address::{
    relay_dial_addresses, socket_from_app_multiaddr, socket_to_app_multiaddr, Address,
    AppAddressError, IpAddress, Part, SocketAddress,
};
use ciphermesh::args::{split_optional_message_and_bootstrap, tail_args, take_verbose_flag};
use ciphermesh::bytes::hex_encode;
use ciphermesh::chat::{
    chat_message_id, chat_preview_line, contact_id_for_display_name, contact_id_for_identity,
    display_name_or_anonymous, hex_preview, is_chat_back_command, message_status_label,
    pending_peer_message_id, pending_peer_message_id_from, pending_peer_message_id_from_source,
    relative_time, relative_time_at, remote_sender_label, short_hex, truncate_preview,
};
use ciphermesh::invite::{
    generate_invite_code, hex_decode, invite_code_from, invite_code_from_source,
    invite_code_hash, normalize_invite_code, safety_number, HexError, InviteCodeError, INVITE_CODE_ALPHABET, INVITE_CODE_LEN,
};
use ciphermesh::menu::{
    choose_history, choose_invite, choose_main, choose_on_page, is_back_selection,
    is_quit_selection, page_count, page_to_show, saved_chat_input, select_entry, HistoryChoice,
    InviteChoice, MainChoice, PageChoice, SavedChatInput,
};
use ciphermesh::records::{ContactRecord, MessageDirection, MessageRecord, MessageStatus};
use ciphermesh::storage::ChatSummary;
use libp2p::multiaddr::Protocol;
use libp2p::{identity, Multiaddr, PeerId};
use sha2::{Digest, Sha256};

fn multiaddr(address: &Address) -> Multiaddr {
    let mut multiaddr = Multiaddr::empty();
    for part in &address.parts {
        multiaddr.push(match part {
            Part::Ip4(octets) => Protocol::Ip4((*octets).into()),
            Part::Ip6(octets) => Protocol::Ip6((*octets).into()),
            Part::Tcp(port) => Protocol::Tcp(*port),
            Part::Udp(port) => Protocol::Udp(*port),
            Part::Dns(name) => Protocol::Dns(name.as_str().into()),
            Part::Dns4(name) => Protocol::Dns4(name.as_str().into()),
            Part::Dns6(name) => Protocol::Dns6(name.as_str().into()),
            Part::P2p(peer) => Protocol::P2p(peer.parse().unwrap()),
            Part::P2pCircuit => Protocol::P2pCircuit,
            Part::Other(text) => panic!("unexpected part {text}"),
        });
    }
    multiaddr
}

#[test]
fn unspecified_app_address_uses_discovered_peer_ip() {
    let peer_ip = IpAddress::V4([192, 0, 2, 10]);
    let app_multiaddr = socket_to_app_multiaddr(SocketAddress {
        ip: IpAddress::V4([0, 0, 0, 0]),
        port: 5000,
    });

    let resolved = socket_from_app_multiaddr(&app_multiaddr, Some(peer_ip)).unwrap();

    assert_eq!(resolved, SocketAddress { ip: peer_ip, port: 5000 });
}

#[test]
fn relay_dial_address_targets_peer_through_circuit() {
    let relay_peer_id = PeerId::from(identity::Keypair::generate_ed25519().public());
    let target_peer_id = PeerId::from(identity::Keypair::generate_ed25519().public());
    let relay_addr =
        Address::parse(&format!("/ip4/127.0.0.1/tcp/4001/p2p/{relay_peer_id}")).unwrap();

    let addresses = relay_dial_addresses(&vec![relay_addr], &target_peer_id.to_string());
    assert_eq!(addresses.len(), 1);
    let address = &addresses[0];
    let rendered = multiaddr(address).to_string();

    assert!(rendered.contains("/p2p-circuit/"));
    assert!(rendered.ends_with(&format!("/p2p/{target_peer_id}")));
}

#[test]
fn alice_args_allow_no_initial_message() {
    let args = Vec::<String>::new();
    let (message, bootstrap) = split_optional_message_and_bootstrap(tail_args(&args, 3));

    assert_eq!(message, None);
    assert!(bootstrap.is_empty());
}

#[test]
fn alice_args_treat_first_multiaddr_as_bootstrap_without_message() {
    let args = vec![
        "ciphermesh".to_string(),
        "alice".to_string(),
        "peer-id-placeholder".to_string(),
        "/ip4/127.0.0.1/tcp/4001".to_string(),
    ];
    let (message, bootstrap) = split_optional_message_and_bootstrap(tail_args(&args, 3));

    assert_eq!(message, None);
    assert_eq!(bootstrap.len(), 1);
}

#[test]
fn alice_args_still_allow_one_shot_message() {
    let args = vec![
        "ciphermesh".to_string(),
        "alice".to_string(),
        "peer-id-placeholder".to_string(),
        "hello bob".to_string(),
    ];
    let (message, bootstrap) = split_optional_message_and_bootstrap(tail_args(&args, 3));

    assert_eq!(message, Some("hello bob"));
    assert!(bootstrap.is_empty());
}

#[test]
fn generated_invite_code_is_six_characters() {
    let code = generate_invite_code().expect("invite code");

    assert_eq!(code.len(), INVITE_CODE_LEN);
    assert_eq!(code.len(), 6);
    assert!(code
        .bytes()
        .all(|byte| INVITE_CODE_ALPHABET.as_bytes().contains(&byte)));
}

#[test]
fn invite_code_normalization_accepts_exactly_six_characters() {
    assert_eq!(
        normalize_invite_code("ab-c2d3").expect("normalized"),
        "ABC2D3"
    );
    assert!(normalize_invite_code("ABCDE").is_err());
    assert!(normalize_invite_code("ABCDEFG").is_err());
}

#[test]
fn display_names_render_cleanly_for_chat_ui() {
    assert_eq!(display_name_or_anonymous("James"), "James");
    assert_eq!(display_name_or_anonymous("   "), "Anonymous");
    assert_eq!(display_name_or_anonymous("Anonymous"), "Anonymous");
}

#[test]
fn only_slash_commands_leave_active_chat_input() {
    assert!(!is_chat_back_command("B"));
    assert!(!is_chat_back_command("back"));
    assert!(!is_chat_back_command("hello /back"));
    assert!(is_chat_back_command("/back"));
    assert!(is_chat_back_command("/back "));
    assert!(is_chat_back_command("/exit"));
}

#[test]
fn normal_chat_message_ids_do_not_embed_raw_debug_identifiers() {
    let id = chat_message_id(
        "contact-james",
        &MessageDirection::Sent,
        Some(1),
        b"/ip4/127.0.0.1/tcp/4001/p2p/raw-peer-id",
    );

    assert!(!id.contains("127.0.0.1"));
    assert!(!id.contains("raw-peer-id"));
    assert_eq!(id.len(), 32);
}

#[test]
fn invite_codes_are_refused_for_length_before_characters() {
    assert_eq!(normalize_invite_code("A-B C"), Err(InviteCodeError::WrongLength));
    assert_eq!(normalize_invite_code("ABCDÖ"), Err(InviteCodeError::UnsupportedCharacters));
    assert_eq!(normalize_invite_code("ABCDEÖ"), Err(InviteCodeError::WrongLength));
    assert_eq!(normalize_invite_code("ABCDE1"), Err(InviteCodeError::UnsupportedCharacters));
    assert_eq!(normalize_invite_code(" abc 234\t").unwrap(), "ABC234");
    assert_eq!(
        InviteCodeError::WrongLength.message(),
        "invite code must be 6 characters"
    );
    assert_eq!(
        InviteCodeError::UnsupportedCharacters.message(),
        "invite code contains unsupported characters"
    );
}

#[test]
fn random_bytes_select_the_characters_of_a_code() {
    assert_eq!(invite_code_from(&[0, 7, 8, 23, 24, 31]), "AHJZ29");
    assert_eq!(invite_code_from(&[32, 255, 64, 96, 128, 160]), "A9AAAA");
}

#[test]
fn generated_codes_are_accepted_as_they_are() {
    for _ in 0..20 {
        let code = generate_invite_code().unwrap();
        assert_eq!(normalize_invite_code(&code).unwrap(), code);
    }
}

#[test]
fn invite_codes_are_registered_under_a_digest() {
    let digest = Sha256::digest(b"ciphermesh.invite-code.v1ABC2D3");
    assert_eq!(invite_code_hash("ABC2D3"), hex_encode(&digest[..16]));
    assert_eq!(invite_code_hash("abc2d3"), invite_code_hash("ABC2D3"));
    assert_ne!(invite_code_hash("ABC2D4"), invite_code_hash("ABC2D3"));
}

#[test]
fn safety_numbers_are_the_same_for_both_users() {
    let low = [1u8; 32];
    let high = [2u8; 32];
    let mut hashed = b"ciphermesh.safety-number.v1".to_vec();
    hashed.extend_from_slice(&low);
    hashed.extend_from_slice(&high);
    let expected = hex_encode(&Sha256::digest(&hashed)[..20]);
    assert_eq!(safety_number(&low, &high), expected);
    assert_eq!(safety_number(&high, &low), expected);
    assert_eq!(expected.len(), 40);
}

#[test]
fn hexadecimal_text_is_decoded_pair_by_pair() {
    assert_eq!(hex_decode("00ffA0a0").unwrap(), vec![0x00, 0xff, 0xa0, 0xa0]);
    assert_eq!(hex_decode("").unwrap(), Vec::<u8>::new());
    assert_eq!(hex_decode("+f").unwrap(), vec![15]);
    assert_eq!(hex_decode("abc"), Err(HexError::OddLength));
    assert_eq!(hex_decode("0g"), Err(HexError::NotDigits));
    assert_eq!(hex_decode("-1"), Err(HexError::NotDigits));
    assert_eq!(hex_decode("ö"), Err(HexError::NotDigits));
    assert_eq!(hex_decode("0ö1"), Err(HexError::NotText));
    let bytes: Vec<u8> = (0..=255).collect();
    assert_eq!(hex_decode(&hex_encode(&bytes)).unwrap(), bytes);
}

#[test]
fn display_names_are_trimmed_and_bounded() {
    assert_eq!(display_name_or_anonymous("  Ada  "), "Ada");
    assert_eq!(display_name_or_anonymous(&"x".repeat(70)), "x".repeat(64));
    assert_eq!(display_name_or_anonymous("\u{3000}"), "Anonymous");
    assert_eq!(remote_sender_label(" ", "Bea"), "Bea");
    assert_eq!(remote_sender_label("Ada", "Bea"), "Ada");
}

#[test]
fn previews_are_cut_with_an_ellipsis() {
    assert_eq!(truncate_preview("short", 5), "short");
    assert_eq!(truncate_preview("longer", 5), "longe...");
    assert_eq!(truncate_preview("äöüß", 3), "äöü...");
}

#[test]
fn ages_are_told_in_words() {
    let now = 1_000_000;
    for (age, words) in [
        (0, "just now"),
        (59, "just now"),
        (60, "1 min ago"),
        (119, "1 min ago"),
        (120, "2 min ago"),
        (3599, "59 min ago"),
        (3600, "1 hour ago"),
        (7199, "1 hour ago"),
        (7200, "2 hours ago"),
        (86_399, "23 hours ago"),
        (86_400, "yesterday"),
        (172_799, "yesterday"),
        (172_800, "2 days ago"),
    ] {
        assert_eq!(relative_time_at(now - age, now), words);
    }
    assert_eq!(relative_time_at(now + 500, now), "just now");
    assert_eq!(relative_time(u64::MAX), "just now");
    assert!(relative_time(0).ends_with(" days ago"));
}

fn summary(last_message: Option<MessageRecord>) -> ChatSummary {
    ChatSummary {
        contact: ContactRecord {
            contact_id: "contact-1".to_string(),
            display_name: "Ada".to_string(),
            identity_public_key: vec![1; 32],
            discovery_hint: "hint".to_string(),
            saved_at_unix_secs: 1,
        },
        last_message,
    }
}

fn message(direction: MessageDirection, plaintext: Option<&str>) -> MessageRecord {
    MessageRecord {
        message_id: "m".to_string(),
        conversation_id: "contact-1".to_string(),
        sender_id: "you".to_string(),
        recipient_id: "Ada".to_string(),
        direction,
        status: MessageStatus::Sent,
        protocol_counter: None,
        ciphertext: vec![],
        plaintext: plaintext.map(str::to_string),
        created_at_unix_secs: 1000,
    }
}

#[test]
fn chat_previews_show_what_waits_or_came_last() {
    assert_eq!(chat_preview_line(&summary(None), 0, 1000), "Offline · No messages");
    assert_eq!(chat_preview_line(&summary(None), 1, 1000), "Offline · 1 pending message");
    assert_eq!(chat_preview_line(&summary(None), 12, 1000), "Offline · 12 pending messages");
    let sent = summary(Some(message(MessageDirection::Sent, Some(" hello "))));
    assert_eq!(
        chat_preview_line(&sent, 0, 1060),
        "Offline · last message: you: hello · 1 min ago"
    );
    let empty = summary(Some(message(MessageDirection::Received, Some("  "))));
    assert_eq!(
        chat_preview_line(&empty, 0, 1000),
        "Offline · last message: [empty message] · just now"
    );
    let sealed = summary(Some(message(MessageDirection::Received, None)));
    assert_eq!(
        chat_preview_line(&sealed, 0, 1000),
        "Offline · last message: [encrypted] · just now"
    );
    let long = summary(Some(message(MessageDirection::Received, Some(&"y".repeat(60)))));
    assert_eq!(
        chat_preview_line(&long, 0, 1000),
        format!("Offline · last message: {}... · just now", "y".repeat(48))
    );
}

#[test]
fn message_status_is_told_in_words() {
    assert_eq!(message_status_label(&MessageStatus::Stored), "sending...");
    assert_eq!(message_status_label(&MessageStatus::Sent), "sent");
    assert_eq!(message_status_label(&MessageStatus::Received), "delivered");
}

#[test]
fn ids_are_digests_of_what_they_name() {
    let mut hashed = b"ciphermesh.local-history.v1".to_vec();
    hashed.extend_from_slice(b"contact-1received");
    hashed.extend_from_slice(&7u64.to_be_bytes());
    hashed.extend_from_slice(b"bytes");
    assert_eq!(
        chat_message_id("contact-1", &MessageDirection::Received, Some(7), b"bytes"),
        hex_encode(&Sha256::digest(&hashed)[..16])
    );
    let digest = Sha256::digest([3u8; 32]);
    assert_eq!(
        contact_id_for_identity(&[3u8; 32]),
        format!("contact-{}", hex_encode(&digest[..8]))
    );
    let digest = Sha256::digest(b"ciphermesh.display-contact.v1Ada");
    assert_eq!(
        contact_id_for_display_name(" Ada "),
        format!("contact-{}", hex_encode(&digest[..8]))
    );
    let mut hashed = b"ciphermesh.pending-peer-message.v1peer".to_vec();
    hashed.extend_from_slice(&9u64.to_be_bytes());
    hashed.extend_from_slice(b"hello");
    hashed.extend_from_slice(&[5u8; 16]);
    assert_eq!(
        pending_peer_message_id_from("peer", "hello", 9, &[5u8; 16]),
        hex_encode(&Sha256::digest(&hashed)[..16])
    );
    assert_ne!(
        pending_peer_message_id("peer", "hello").unwrap(),
        pending_peer_message_id("peer", "hello").unwrap()
    );
}

#[test]
fn an_error_of_the_random_source_is_handed_on() {
    let error = getrandom::Error::UNSUPPORTED;
    assert_eq!(invite_code_from_source(Err(error)), Err(error));
    assert_eq!(
        pending_peer_message_id_from_source("peer", "hello", 9, Err(error)),
        Err(error)
    );
    assert_eq!(
        invite_code_from_source(Ok(vec![0, 7, 8, 23, 24, 31])),
        Ok("AHJZ29".to_string())
    );
    assert_eq!(
        pending_peer_message_id_from_source("peer", "hello", 9, Ok(vec![5u8; 16])),
        Ok(pending_peer_message_id_from("peer", "hello", 9, &[5u8; 16]))
    );
}

#[test]
fn bytes_are_shown_in_part() {
    assert_eq!(short_hex(&[1, 2, 3]), "010203");
    assert_eq!(short_hex(&[0xab; 9]), "abababababab");
    assert_eq!(hex_preview(&[0x0a, 0xff]), "0a ff");
    assert_eq!(hex_preview(&[]), "");
    assert_eq!(hex_preview(&[0u8; 200]).len(), 96 * 3 - 1);
}

#[test]
fn menu_selections_are_understood() {
    assert!(is_back_selection(" B "));
    assert!(is_back_selection("back"));
    assert!(!is_back_selection("/back"));
    assert!(is_quit_selection("QUIT"));
    assert_eq!(choose_main(" 1 "), MainChoice::CreateInvite);
    assert_eq!(choose_main("2"), MainChoice::JoinInvite);
    assert_eq!(choose_main("3"), MainChoice::Messages);
    assert_eq!(choose_main("q"), MainChoice::Quit);
    assert_eq!(choose_main("b"), MainChoice::Back);
    assert_eq!(choose_main("4"), MainChoice::Profile);
    assert_eq!(choose_main("5"), MainChoice::Invalid);
    assert_eq!(choose_invite("1"), InviteChoice::Proceed);
    assert_eq!(choose_invite("Back"), InviteChoice::Back);
    assert_eq!(choose_invite(""), InviteChoice::Invalid);
    assert_eq!(choose_history("a", 2), HistoryChoice::ViewAll);
    assert_eq!(choose_history("a", 0), HistoryChoice::Invalid);
    assert_eq!(choose_history("b", 0), HistoryChoice::Back);
    assert_eq!(choose_history("2", 2), HistoryChoice::Open(1));
    assert_eq!(choose_history("3", 2), HistoryChoice::Invalid);
}

#[test]
fn list_entries_are_selected_by_number() {
    assert_eq!(select_entry(" 1 ", 3), Some(0));
    assert_eq!(select_entry("+3", 3), Some(2));
    assert_eq!(select_entry("003", 3), Some(2));
    assert_eq!(select_entry("0", 3), None);
    assert_eq!(select_entry("4", 3), None);
    assert_eq!(select_entry("-1", 3), None);
    assert_eq!(select_entry("+", 3), None);
    assert_eq!(select_entry("", 3), None);
    assert_eq!(select_entry("99999999999999999999999999", usize::MAX), None);
    assert_eq!(select_entry(&usize::MAX.to_string(), usize::MAX), Some(usize::MAX - 1));
}

#[test]
fn pages_of_the_history_are_turned_within_its_ends() {
    assert_eq!(page_count(0), 1);
    assert_eq!(page_count(6), 1);
    assert_eq!(page_count(7), 2);
    assert_eq!(page_to_show(5, 2), 1);
    assert_eq!(page_to_show(1, 2), 1);
    assert_eq!(choose_on_page("n", 0, 2, 6), PageChoice::Turn(1));
    assert_eq!(choose_on_page("N", 1, 2, 6), PageChoice::AtLastPage);
    assert_eq!(choose_on_page("p", 1, 2, 6), PageChoice::Turn(0));
    assert_eq!(choose_on_page("P", 0, 2, 6), PageChoice::AtFirstPage);
    assert_eq!(choose_on_page("6", 0, 2, 6), PageChoice::Open(5));
    assert_eq!(choose_on_page("7", 0, 2, 6), PageChoice::Invalid);
    assert_eq!(choose_on_page("back", 0, 2, 6), PageChoice::Back);
}

#[test]
fn lines_in_a_saved_chat_are_understood() {
    assert_eq!(saved_chat_input(" /exit"), SavedChatInput::Leave);
    assert_eq!(saved_chat_input("/CLEAR"), SavedChatInput::Clear);
    assert_eq!(saved_chat_input(""), SavedChatInput::Nothing);
    assert_eq!(saved_chat_input("  "), SavedChatInput::Message);
    assert_eq!(saved_chat_input("clear"), SavedChatInput::Message);
}

#[test]
fn verbose_flags_are_taken_out() {
    let mut args: Vec<String> =
        ["a", "--verbose", "b", "-v"].iter().map(|arg| arg.to_string()).collect();
    assert!(take_verbose_flag(&mut args, None));
    assert_eq!(args, vec!["a".to_string(), "b".to_string()]);
    assert!(!take_verbose_flag(&mut args, Some("off")));
    assert!(take_verbose_flag(&mut args, Some("yes")));
    assert_eq!(args.len(), 2);
}

#[test]
fn app_addresses_lack_parts() {
    let none = Address { parts: vec![] };
    assert_eq!(
        socket_from_app_multiaddr(&none, None).unwrap_err().message(),
        "app multiaddr is missing an IP address"
    );
    let any = socket_to_app_multiaddr(SocketAddress { ip: IpAddress::V6([0; 16]), port: 1 });
    assert_eq!(
        socket_from_app_multiaddr(&any, None),
        Err(AppAddressError::UnknownPeerIp)
    );
    let portless = Address { parts: vec![Part::Ip4([1, 2, 3, 4])] };
    assert_eq!(
        socket_from_app_multiaddr(&portless, None),
        Err(AppAddressError::MissingPort)
    );
}
