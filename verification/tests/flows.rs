//! Whole flows: chats, queues, the outbox, the mailbox, devices, relays.

use ciphermesh::address::{Address, AppAddressError, IpAddress, SocketAddress};
use ciphermesh::crdt::{event_record, ConversationEvent};
use ciphermesh::delivery::{
    can_take, deliver_outbox_item_to_bob, delivery_outbox_id, encrypt_and_queue_device_delivery,
    handle_ack, load_device_certificates, load_device_revocations, message_id_for,
    queue_durable_message, DeliveryError,
};
use ciphermesh::demo::{
    after_outbox_restart, after_restart, before_outbox_restart, before_restart, local_demo,
    ResumeError,
};
use ciphermesh::device::DeviceSession;
use ciphermesh::fanout::{fan_out, open_device_sessions, persist_phase_5a_identity, session_for};
use ciphermesh::frames::{
    ChatFrame, ChatInitialMessage, ChatPreKeyBundle, DurableAppEnvelope,
};
use ciphermesh::handshake::{
    answer_chat_bundle, chat_bundle, flush_pending, open_chat_initial, HandshakeError,
};
use ciphermesh::invite::InviteCodeError;
use ciphermesh::mailbox_node::{
    answer_mailbox, prepare_mailbox_deposit, receive_offline_envelope, recipient_token_for_bundle,
    MailboxRequest, MailboxResponse, OfflineEnvelope, MAILBOX_MAX_ENVELOPES,
};
use ciphermesh::mailbox_storage::MailboxStorage;
use ciphermesh::profile::{
    message_lines, ChatHistoryEntry, ChatNames, ChatParty, KnownPeerRecord, PendingPeerMessage,
    Profile,
};
use ciphermesh::records::{
    ContactRecord, MessageDirection, MessageStatus, OutboxItem, OutboxStatus,
};
use ciphermesh::relay::{
    answer_relayed, known_ip, parse_bootstrap_peers, parse_peer_id, peer_id_from_multiaddr,
    record_key, socket_from_record, CipherMeshRequest, CipherMeshResponse, Discovery, PeerIdError,
    RecordError, RelayedSender, RelayedStep,
};
use ciphermesh::rendezvous::{create_invite, invite_scene, join_invite, JoinError};
use ciphermesh::scenes::{
    active_devices, convergence_scene, demo_sync_event, own_devices_scene, read_pending_delivery,
    sync_scene, PendingRead,
};
use ciphermesh::states::store_bob;
use ciphermesh::storage::Storage;
use ciphermesh::sync::{event_positions, sync_authorized_sibling_devices, SyncError};
use ciphermesh::wire::{decode, encode};
use ciphermesh::{
    AccountIdentity, Alice, Bob, CryptoError, DeviceIdentity, InitialMessage, RatchetMessage,
};
use libp2p::{identity, PeerId};

#[test]
fn chat_delivery_stays_queued_until_acknowledged() {
    let mut storage = Profile::open_in_memory();
    storage.track_pending_chat_delivery("conversation", "message-1", "hello", 10);

    assert_eq!(storage.pending_peer_messages_for_peer("conversation").len(), 1);
    storage.mark_delivered_if_pending("message-1");
    assert!(storage.pending_peer_messages_for_peer("conversation").is_empty());
}

#[test]
fn discovery_record_key_uses_libp2p_peer_id_not_ciphermesh_identity() {
    let alice = Alice::local();
    let ciphermesh_identity = alice.signed_key_exchange().identity_public_key;
    let libp2p_peer_id = PeerId::from(identity::Keypair::generate_ed25519().public());
    let key_text = record_key(&libp2p_peer_id.to_string());

    assert!(key_text.contains(&libp2p_peer_id.to_string()));
    assert!(!key_text.contains(&format!("{ciphermesh_identity:?}")));
}

fn known_peer() -> KnownPeerRecord {
    KnownPeerRecord {
        peer_id: "peer".to_string(),
        identity_public_key: vec![1; 32],
        display_name: "Ada".to_string(),
        conversation_id: "conversation".to_string(),
        last_seen_at_unix_secs: 1,
    }
}

#[test]
fn messages_for_a_peer_that_is_away_wait_in_order() {
    let mut profile = Profile::open_in_memory();
    profile.save_known_peer(&known_peer());
    profile.queue_offline_peer_message(&known_peer(), "b", "second", 20);
    profile.queue_offline_peer_message(&known_peer(), "a", "first", 10);
    profile.queue_offline_peer_message(&known_peer(), "c", "third", 20);
    let waiting: Vec<String> = profile
        .pending_peer_messages_for_peer("peer")
        .into_iter()
        .map(|message| message.message_id)
        .collect();
    assert_eq!(waiting, ["a", "b", "c"]);
    assert_eq!(profile.pending_count("conversation"), 3);
    assert_eq!(profile.pending_count("elsewhere"), 0);
    profile.record_pending_peer_message_attempt("a", 30);
    let first = &profile.pending_peer_messages_for_peer("peer")[0];
    assert_eq!((first.retry_count, first.last_attempt_unix_secs), (1, Some(30)));
    let history = profile.storage.messages_for_conversation("conversation");
    assert_eq!(history[0].status, MessageStatus::Stored);
    assert_eq!(history[0].sender_id, "you");
    assert_eq!(history[0].ciphertext, b"first");
    profile.mark_delivered_if_pending("a");
    let history = profile.storage.messages_for_conversation("conversation");
    assert_eq!(history[0].status, MessageStatus::Sent);
    assert_eq!(history[0].plaintext.as_deref(), Some("first"));
    assert_eq!(profile.pending_count("conversation"), 2);
    profile.remove_pending_peer_message("c");
    assert_eq!(profile.pending_count("conversation"), 1);
    profile.queue_pending_peer_message(&PendingPeerMessage {
        message_id: "b".to_string(),
        peer_id: "peer".to_string(),
        conversation_id: "conversation".to_string(),
        plaintext: "changed".to_string(),
        created_at_unix_secs: 1,
        retry_count: 0,
        last_attempt_unix_secs: None,
    });
    assert_eq!(profile.pending_peer_messages_for_peer("peer")[0].plaintext, "second");
    profile.queue_message_after_peer_disconnect("conversation", " ", "d", "fourth", 40);
    assert_eq!(profile.pending_peer_messages_for_peer("peer").len(), 2);
    assert_eq!(profile.pending_peer_id_for_conversation("elsewhere"), "elsewhere");
}

#[test]
fn contacts_with_an_identity_are_known_peers() {
    let mut profile = Profile::open_in_memory();
    assert_eq!(profile.load_known_peer_for_conversation("contact"), None);
    profile.save_contact_for_chat("contact", " Ada ", &[7; 32], "hint", 5);
    let peer = profile.known_peer_for_conversation("contact").unwrap();
    assert_eq!(peer.display_name, "Ada");
    assert_eq!(peer.peer_id, ciphermesh::chat::contact_id_for_identity(&[7; 32]));
    profile.save_contact_for_chat("legacy", "", b"legacy display-name contact", "hint", 5);
    assert_eq!(profile.known_peer_for_conversation("legacy"), None);
    assert_eq!(profile.load_known_peer_for_conversation("legacy"), None);
    profile.storage.save_contact(&ContactRecord {
        contact_id: "old".to_string(),
        display_name: "Old".to_string(),
        identity_public_key: vec![8; 32],
        discovery_hint: "hint".to_string(),
        saved_at_unix_secs: 6,
    });
    let peer = profile.load_known_peer_for_conversation("old").unwrap();
    assert_eq!(peer.last_seen_at_unix_secs, 6);
    assert_eq!(profile.chat_summary_count(), 3);
    assert_eq!(profile.recent_chat_summaries(2).len(), 2);
    assert_eq!(profile.recent_chat_summaries(2)[0].contact.contact_id, "old");
    assert_eq!(profile.chat_summaries_page(2, 2).len(), 1);
    assert!(profile.chat_summaries_page(2, 3).is_empty());
}

fn pair(hello: &str) -> (Profile, Alice, Profile, Bob, String, String) {
    let mut alice = Alice::local();
    let mut bob = Bob::local();
    let mut joining = Profile::open_in_memory();
    let mut waiting = Profile::open_in_memory();
    let bundle = chat_bundle(&bob, "Bob").unwrap();
    let joined =
        answer_chat_bundle(&mut joining, &mut alice, &bundle, "Alice", hello, "hint", true, 1)
            .unwrap();
    assert_eq!(joined.remote_display_name, "Bob");
    let opened =
        open_chat_initial(&mut waiting, &mut bob, &joined.payload, "Bob", "hint", true, 2).unwrap();
    assert_eq!(opened.remote_display_name, "Alice");
    assert_eq!(opened.plaintext, hello);
    (joining, alice, waiting, bob, joined.conversation_id, opened.conversation_id)
}

#[test]
fn pairing_opens_a_chat_on_both_sides() {
    let (joining, alice, waiting, bob, to_bob, to_alice) = pair("hi");
    let identity = alice.signed_key_exchange().identity_public_key;
    assert_eq!(to_alice, ciphermesh::chat::contact_id_for_identity(&identity));
    assert_eq!(joining.storage.load_contact(&to_bob).unwrap().display_name, "Bob");
    assert_eq!(waiting.storage.load_contact(&to_alice).unwrap().display_name, "Alice");
    let history = waiting.storage.messages_for_conversation(&to_alice);
    assert_eq!(history.len(), 1);
    assert_eq!(history[0].plaintext.as_deref(), Some("hi"));
    assert_eq!(history[0].recipient_id, "you");
    assert_eq!(waiting.storage.load_local_identity("bob"), Some(store_bob(&bob)));
    assert_eq!(chat_bundle(&bob, "Bob"), Err(CryptoError::PreKeyUnavailable));
    let (_, _, waiting, _, _, to_alice) = pair("");
    assert!(waiting.storage.messages_for_conversation(&to_alice).is_empty());
}

#[test]
fn pairing_payloads_are_refused() {
    let mut profile = Profile::open_in_memory();
    let mut alice = Alice::local();
    let mut bob = Bob::local();
    let refused =
        answer_chat_bundle(&mut profile, &mut alice, &[1], "A", "", "hint", true, 1).err().unwrap();
    assert_eq!(refused, HandshakeError::Malformed);
    let mut bundle = bob.prekey_bundle().unwrap();
    bundle.signed_prekey_signature[0] ^= 1;
    let refused =
        answer_chat_bundle(&mut profile, &mut alice, &encode(&bundle), "A", "", "hint", true, 1)
            .err()
            .unwrap();
    assert_eq!(refused, HandshakeError::Crypto(CryptoError::SignatureVerification));
    assert_eq!(refused.message(), "SignatureVerification");
    let refused =
        open_chat_initial(&mut profile, &mut bob, &[1], "B", "hint", true, 1).err().unwrap();
    assert_eq!(refused, HandshakeError::Malformed);
    let initial = InitialMessage {
        alice_initial_public_key: [1; 32],
        one_time_prekey_id: 99,
        message: RatchetMessage { number: 0, ratchet_public_key: [1; 32], ciphertext: vec![] },
    };
    let refused = open_chat_initial(&mut profile, &mut bob, &encode(&initial), "B", "h", true, 1)
        .err()
        .unwrap();
    assert_eq!(refused, HandshakeError::Crypto(CryptoError::PreKeyUnavailable));
    let before = bob.export_state();
    bob.replenish_one_time_prekey(7);
    assert_eq!(bob.export_state(), before);
}

#[test]
fn chat_lines_are_sent_read_and_kept_once() {
    let (mut joining, mut alice, mut waiting, mut bob, to_bob, to_alice) = pair("");
    let alice_names = ChatNames {
        local_display_name: "Alice",
        remote_display_name: "Bob",
        conversation_id: &to_bob,
    };
    let bob_names = ChatNames {
        local_display_name: "Bob",
        remote_display_name: "Alice",
        conversation_id: &to_alice,
    };
    assert!(alice.can_send());
    let (id, bytes) =
        joining.prepare_frame(&mut alice, &alice_names, "one", None, 10).unwrap();
    let ChatFrame::Message { message_id, sender_display_name, message } =
        decode::<ChatFrame>(&bytes).unwrap()
    else {
        panic!("no message");
    };
    assert_eq!(message_id, id);
    assert_eq!(sender_display_name, "Alice");
    for expected in [Some("one"), None] {
        let read = waiting
            .receive_message(
                &mut bob,
                &bob_names,
                &message_id,
                &sender_display_name,
                &message,
                &bytes,
                true,
                11,
            )
            .unwrap();
        assert_eq!(read.as_deref(), expected);
    }
    let history = waiting.storage.messages_for_conversation(&to_alice);
    assert_eq!(history.len(), 1);
    assert_eq!(history[0].direction, MessageDirection::Received);
    assert_eq!(history[0].sender_id, "Alice");
    assert_eq!(waiting.storage.load_local_identity("bob"), Some(store_bob(&bob)));
    assert_eq!(message_lines(&history[0], "Alice"), ["Alice: one"]);
    let sent = joining.storage.messages_for_conversation(&to_bob);
    assert_eq!(message_lines(&sent[0], "Bob"), ["You: one", "    sent"]);
    let replay = waiting.receive_message(
        &mut bob, &bob_names, "another id", "Alice", &message, &bytes, true, 12,
    );
    assert_eq!(replay, Err(CryptoError::Replay));
    let mut stranger = Bob::local();
    let unread = waiting.receive_message(
        &mut stranger, &bob_names, "third id", "Alice", &message, &bytes, true, 12,
    );
    assert_eq!(unread, Err(CryptoError::MissingSessionKey));
}

#[test]
fn what_waited_is_flushed_in_order_and_waits_on() {
    let (mut joining, mut alice, mut waiting, mut bob, to_bob, to_alice) = pair("");
    for (id, text) in [("m1", "one"), ("m2", "two")] {
        joining.track_pending_chat_delivery(&to_bob, id, text, 20);
    }
    let flush = flush_pending(&mut joining, &mut alice, "Alice", &to_bob, 30);
    assert_eq!(flush.stopped, None);
    assert_eq!(flush.frames.len(), 2);
    let names = ChatNames {
        local_display_name: "Bob",
        remote_display_name: "Alice",
        conversation_id: &to_alice,
    };
    for (bytes, (id, text)) in flush.frames.iter().zip([("m1", "one"), ("m2", "two")]) {
        let Some(ChatFrame::Message { message_id, sender_display_name, message }) =
            decode::<ChatFrame>(bytes)
        else {
            panic!("no message");
        };
        assert_eq!(message_id, id);
        let read = waiting.receive_message(
            &mut bob, &names, &message_id, &sender_display_name, &message, bytes, false, 31,
        );
        assert_eq!(read.unwrap().as_deref(), Some(text));
    }
    assert_eq!(joining.pending_count(&to_bob), 2);
    assert_eq!(joining.pending_peer_messages_for_peer(&to_bob)[1].retry_count, 1);
    let mut stranger = Alice::local();
    let stopped = flush_pending(&mut joining, &mut stranger, "Alice", &to_bob, 40);
    assert!(stopped.frames.is_empty());
    assert_eq!(stopped.stopped, Some(CryptoError::MissingSessionKey));
}

#[test]
fn history_entries_without_an_id_get_one() {
    let mut profile = Profile::open_in_memory();
    profile.persist_chat_message(
        ChatHistoryEntry {
            message_id: None,
            conversation_id: "c",
            sender_display_name: "me",
            peer_display_name: "",
            direction: MessageDirection::Sent,
            status: MessageStatus::Sent,
            protocol_counter: Some(4),
            ciphertext: b"bytes",
            plaintext: "text",
        },
        9,
    );
    let history = profile.storage.messages_for_conversation("c");
    assert_eq!(history[0].recipient_id, "Anonymous");
    assert_eq!(
        history[0].message_id,
        ciphermesh::chat::chat_message_id("c", &MessageDirection::Sent, Some(4), b"bytes")
    );
    let mut profile = Profile::open_in_memory();
    profile.keep_party(&Alice::local(), 1);
    assert!(profile.storage.load_local_identity("alice").is_some());
}

#[test]
fn local_scene_reads_both_messages() {
    let shown = local_demo().unwrap();
    assert_eq!(shown.plaintext, "hello bob, this is alice");
    assert_eq!(shown.offline_plaintext, "hello offline bob");
    assert_eq!(shown.message.number, 0);
    assert_eq!(shown.message.ratchet_public_key, shown.alice_exchange.x25519_public_key);
    assert_eq!(shown.message.ciphertext.len(), "hello bob, this is alice".len() + 16);
    assert_eq!(shown.initial.one_time_prekey_id, shown.bundle.one_time_prekey_id);
    assert_eq!(shown.initial.message.ciphertext.len(), "hello offline bob".len() + 16);
}

#[test]
fn restored_parties_go_on_as_the_kept_ones() {
    let mut alice = Alice::local();
    let mut bob = Bob::local();
    alice.derive_session_key(&bob.signed_key_exchange()).unwrap();
    bob.derive_session_key(&alice.signed_key_exchange()).unwrap();
    let first = alice.encrypt_for_bob("one").unwrap();
    let second = alice.encrypt_for_bob("two").unwrap();
    let third = alice.encrypt_for_bob("three").unwrap();
    bob.decrypt_from_alice(&third).unwrap();
    bob.decrypt_from_alice(&first).unwrap();
    let mut restored = Bob::from_state(bob.export_state());
    assert_eq!(restored.export_state(), bob.export_state());
    for message in [&first, &second, &third, &second] {
        assert_eq!(restored.decrypt_from_alice(message), bob.decrypt_from_alice(message));
        assert_eq!(restored.export_state(), bob.export_state());
    }
    assert_eq!(restored.decrypt_from_alice(&first), Err(CryptoError::Replay));
    let mut writer = Alice::from_state(alice.export_state());
    assert_eq!(writer.export_state(), alice.export_state());
    let kept = alice.encrypt_for_bob("four").unwrap();
    assert_eq!(writer.encrypt_for_bob("four").unwrap(), kept);
    assert_eq!(restored.decrypt_from_alice(&kept).unwrap(), "four");
    let reply = bob.encrypt_for_alice("back").unwrap();
    assert_eq!(writer.decrypt_from_bob(&reply), alice.decrypt_from_bob(&reply));
    assert_eq!(writer.export_state(), alice.export_state());
}

#[test]
fn numbers_at_the_end_of_the_counter_are_refused_for_their_gap() {
    let account = AccountIdentity::generate();
    let phone = DeviceIdentity::generate(account.account_id());
    let bob = DeviceIdentity::generate("bob-account");
    let certificate = account.authorize_device(&phone);
    let mut outbound = bob.create_outbound_session(account.public_key(), &certificate).unwrap();
    let mut inbound =
        phone.create_inbound_session(bob.device_id(), bob.x25519_public_key()).unwrap();
    let mut envelope = outbound.encrypt("m", "text").unwrap();
    envelope.message.number = u64::MAX;
    assert!(inbound.can_decrypt(&envelope));
    let mut storage = Storage::open_in_memory();
    storage.save_device_pair_session_and_outbox_at(
        bob.device_id(),
        phone.device_id(),
        &[],
        &OutboxItem {
            message_id: "m".to_string(),
            recipient_id: phone.device_id().to_string(),
            payload: encode(&envelope),
            status: OutboxStatus::Pending,
            retry_count: 0,
            created_at_unix_secs: 1,
            last_attempt_unix_secs: None,
        },
        1,
    );
    assert_eq!(
        read_pending_delivery(&mut storage, &mut inbound, 2),
        PendingRead::Refused(DeliveryError::Crypto(CryptoError::TooManySkippedMessages))
    );
    let mut state = phone
        .create_inbound_session(bob.device_id(), bob.x25519_public_key())
        .unwrap()
        .export_state();
    state.session.recv_count = u64::MAX - 3;
    let mut near_the_end = DeviceSession::from_state(state);
    assert!(!near_the_end.can_decrypt(&envelope));
    assert_eq!(
        read_pending_delivery(&mut storage, &mut near_the_end, 2),
        PendingRead::Refused(DeliveryError::Malformed)
    );
    let mut state = near_the_end.export_state();
    state.session.recv_count = u64::MAX - 9;
    assert!(DeviceSession::from_state(state.clone()).can_decrypt(&envelope));
    state.session.recv_count = u64::MAX - 3;
    state.session.consumed_message_numbers = vec![u64::MAX];
    assert!(DeviceSession::from_state(state).can_decrypt(&envelope));
    envelope.recipient_device_id = "elsewhere".to_string();
    assert!(near_the_end.can_decrypt(&envelope));
}

#[test]
fn restart_scene_goes_on_from_the_storage() {
    let mut storage = Storage::open_in_memory();
    assert_eq!(
        after_restart(&mut storage, "c", 1).err(),
        Some(ResumeError::MissingAlice)
    );
    assert_eq!(before_restart(&mut storage, "c", 1).unwrap(), "first message before restart");
    let shown = after_restart(&mut storage, "c", 2).unwrap();
    assert_eq!(shown.plaintext, "second message after restart");
    assert!(shown.session_bytes > 0);
    assert_eq!(storage.messages_for_conversation("c").len(), 4);
    assert_eq!(
        after_restart(&mut storage, "elsewhere", 3).err(),
        Some(ResumeError::MissingSession)
    );
    assert_eq!(ResumeError::MissingBob.message(), "Bob state missing after restart");
    storage.save_local_identity("bob", "bob", &[1]);
    assert_eq!(after_restart(&mut storage, "c", 4).err(), Some(ResumeError::Malformed));
    assert_eq!(ResumeError::Malformed.message(), "malformed stored party");
}

#[test]
fn outbox_scene_delivers_once() {
    let (mut storage, id) = before_outbox_restart("c", 1).unwrap();
    assert_eq!(storage.pending_outbox_items().len(), 1);
    let shown = after_outbox_restart(&mut storage, "c", &id, 2).unwrap();
    assert_eq!((shown.pending, shown.status, shown.retry_count), (1, OutboxStatus::Delivered, 1));
    assert!(storage.pending_outbox_items().is_empty());
    let history = storage.messages_for_conversation("c");
    assert_eq!(history.len(), 2);
    assert_eq!(
        history.iter().filter(|m| m.message_id == format!("bob-{id}")).count(),
        1
    );
}

#[test]
fn outbox_scene_delivers_all_that_waits() {
    let mut storage = Storage::open_in_memory();
    assert_eq!(
        after_outbox_restart(&mut storage, "c", "m", 1).err(),
        Some(ResumeError::MissingAlice)
    );
    let (mut storage, id) = before_outbox_restart("c", 1).unwrap();
    let first = storage.outbox_item(&id).unwrap();
    let mut missing = before_outbox_restart("c", 1).unwrap().0;
    assert_eq!(
        after_outbox_restart(&mut missing, "c", "elsewhere", 2).err(),
        Some(ResumeError::MissingItem)
    );
    assert_eq!(ResumeError::MissingItem.message(), "outbox row missing after delivery");
    assert!(missing.pending_outbox_items().is_empty());
    storage.put_outbox_item(&OutboxItem {
        message_id: "unreadable".to_string(),
        payload: vec![1],
        created_at_unix_secs: 2,
        ..first
    });
    assert_eq!(
        after_outbox_restart(&mut storage, "c", &id, 3).err(),
        Some(ResumeError::Delivery(DeliveryError::Malformed))
    );
    assert_eq!(storage.outbox_item(&id).unwrap().status, OutboxStatus::Delivered);
    assert_eq!(storage.outbox_item("unreadable").unwrap().retry_count, 1);
    assert_eq!(storage.pending_outbox_items().len(), 1);
}

#[test]
fn durable_deliveries_are_confirmed_and_deduplicated() {
    let mut storage = Storage::open_in_memory();
    let mut alice = Alice::local();
    let mut bob = Bob::local();
    assert_eq!(
        queue_durable_message(&mut storage, &mut alice, "c", "x", 1),
        Err(CryptoError::MissingSessionKey)
    );
    alice.derive_session_key(&bob.signed_key_exchange()).unwrap();
    bob.derive_session_key(&alice.signed_key_exchange()).unwrap();
    let id = queue_durable_message(&mut storage, &mut alice, "c", "hello", 1).unwrap();
    assert!(id.starts_with("msg-"));
    let item = storage.outbox_item(&id).unwrap();
    assert!(can_take(&storage, &bob, &item));
    for _ in 0..2 {
        let ack = deliver_outbox_item_to_bob(&mut storage, &mut bob, "c", &item, 2).unwrap();
        assert_eq!(ack, id);
    }
    handle_ack(&mut storage, &id, 3);
    assert_eq!(storage.outbox_item(&id).unwrap().status, OutboxStatus::Delivered);
    let broken = OutboxItem { payload: vec![1], ..item.clone() };
    assert_eq!(
        deliver_outbox_item_to_bob(&mut storage, &mut bob, "c", &broken, 4),
        Err(DeliveryError::Malformed)
    );
    let mut fresh = Storage::open_in_memory();
    assert_eq!(
        deliver_outbox_item_to_bob(&mut fresh, &mut bob, "c", &item, 4),
        Err(DeliveryError::Crypto(CryptoError::Replay))
    );
    assert_eq!(DeliveryError::Malformed.message(), "malformed delivery payload");
    assert_eq!(message_id_for(b"x", 0).len(), 32);
    assert_ne!(message_id_for(b"x", 0), message_id_for(b"x", 1));
}

#[test]
fn mailbox_holds_envelopes_until_confirmed() {
    let mut mailbox = MailboxStorage::open_in_memory(MAILBOX_MAX_ENVELOPES);
    let mut sender = Storage::open_in_memory();
    let mut receiver = Storage::open_in_memory();
    let mut alice = Alice::local();
    let mut bob = Bob::mailbox_demo();
    let bundle = Bob::mailbox_demo_prekey_bundle().unwrap();
    let token = recipient_token_for_bundle(&bundle);
    let envelope =
        prepare_mailbox_deposit(&mut sender, &mut alice, &bundle, "while away", 100).unwrap();
    assert_eq!(envelope.recipient_token, token);
    assert_eq!(envelope.expires_at_unix_secs, Some(400));
    let id = envelope.message_id.clone();
    assert_eq!(
        answer_mailbox(&mut mailbox, MailboxRequest::Deposit(envelope.clone()), 101),
        MailboxResponse::Deposited { message_id: id.clone() }
    );
    assert_eq!(sender.outbox_item(&id).unwrap().status, OutboxStatus::Pending);
    let fetch = || MailboxRequest::Fetch { recipient_token: token.clone() };
    assert_eq!(
        answer_mailbox(&mut mailbox, fetch(), 102),
        MailboxResponse::Pending { envelopes: vec![envelope.clone()] }
    );
    let read = receive_offline_envelope(&mut receiver, &mut bob, &token, &envelope, 103).unwrap();
    assert_eq!(read.as_deref(), Some("while away"));
    let again = receive_offline_envelope(&mut receiver, &mut bob, &token, &envelope, 104).unwrap();
    assert_eq!(again, None);
    assert_eq!(
        receiver.messages_for_conversation(&format!("mailbox-{token}")).len(),
        1
    );
    assert_eq!(
        answer_mailbox(&mut mailbox, MailboxRequest::Acknowledge { message_id: id.clone() }, 105),
        MailboxResponse::Acknowledged { message_id: id }
    );
    assert_eq!(
        answer_mailbox(&mut mailbox, fetch(), 106),
        MailboxResponse::Pending { envelopes: vec![] }
    );
    let broken = OfflineEnvelope { message_id: "other".to_string(), ..envelope.clone() };
    assert_eq!(
        receive_offline_envelope(&mut receiver, &mut bob, &token, &broken, 107),
        Err(DeliveryError::Crypto(CryptoError::PreKeyUnavailable))
    );
    let mut full = MailboxStorage::open_in_memory(0);
    assert_eq!(
        answer_mailbox(&mut full, MailboxRequest::Deposit(envelope), 108),
        MailboxResponse::Error("mailbox storage is full".to_string())
    );
}

#[test]
fn replicas_catch_up_by_version_vectors() {
    let mut alice = Storage::open_in_memory();
    let mut bob = Storage::open_in_memory();
    for (device, counter) in [("A", 1), ("A", 2), ("A", 3), ("B", 1)] {
        alice.append_event(&demo_sync_event(device, counter, 5));
    }
    for (device, counter) in [("A", 1), ("A", 2), ("B", 1), ("B", 2)] {
        bob.append_event(&demo_sync_event(device, counter, 5));
    }
    let shown = sync_scene(&mut alice, &mut bob, "demo-conversation");
    assert_eq!(event_positions(&shown.to_alice), ["B:2"]);
    assert_eq!(event_positions(&shown.to_bob), ["A:3"]);
    assert_eq!(shown.alice_before.get(&"A".to_string()), Some(&3));
    assert_eq!(shown.bob_before.get(&"B".to_string()), Some(&2));
    assert_eq!(alice.version_vector("demo-conversation").get(&"B".to_string()), Some(&2));
    assert_eq!(bob.version_vector("demo-conversation").get(&"A".to_string()), Some(&3));
    let event = demo_sync_event("A", 3, 5);
    assert_eq!(event.message_id.as_deref(), Some("A-3"));
    assert_eq!(event.payload, b"A:3");
}

fn created(conversation: &str, device: &str, counter: u64) -> ciphermesh::records::EventRecord {
    event_record(
        conversation,
        device,
        counter,
        ConversationEvent::MessageCreated {
            message_id: format!("{device}-{counter}"),
            author_id: "author".to_string(),
            payload: vec![counter as u8],
        },
    )
}

#[test]
fn replicas_converge_after_an_exchange() {
    let mut left = Storage::open_in_memory();
    let mut right = Storage::open_in_memory();
    left.append_event(&created("c", "L", 1));
    right.append_event(&created("c", "R", 1));
    right.append_event(&created("c", "R", 2));
    let shown = convergence_scene(&mut left, &mut right, "c");
    assert_eq!(shown.left_before.messages.len(), 1);
    assert_eq!(shown.right_before.messages.len(), 2);
    assert_eq!(shown.left_after.messages.len(), 3);
    assert_eq!(shown.left_after, shown.right_after);
}

#[test]
fn own_devices_sync_unless_revoked() {
    let account = AccountIdentity::generate();
    let laptop = DeviceIdentity::generate(account.account_id());
    let phone = DeviceIdentity::generate(account.account_id());
    let laptop_certificate = account.authorize_device(&laptop);
    let phone_certificate = account.authorize_device(&phone);
    let mut left = Storage::open_in_memory();
    let mut right = Storage::open_in_memory();
    left.append_event(&created("c", "L", 1));
    left.append_event(&created("c", "L", 2));
    right.append_event(&created("c", "R", 1));
    let shown = own_devices_scene(
        account.public_key(),
        &laptop_certificate,
        &phone_certificate,
        &[],
        &mut left,
        &mut right,
        "c",
    )
    .ok()
    .unwrap();
    assert_eq!(shown.duplicates, 0);
    assert_eq!(event_positions(&shown.trip.left_to_right), ["L:1", "L:2"]);
    assert_eq!(event_positions(&shown.trip.right_to_left), ["R:1"]);
    assert_eq!(shown.left_state, shown.right_state);
    let revocation = account.revoke_device(phone.device_id(), 1);
    let refused = sync_authorized_sibling_devices(
        account.public_key(),
        &laptop_certificate,
        &phone_certificate,
        &[revocation],
        &mut left,
        &mut right,
        "c",
    )
    .err();
    assert_eq!(refused, Some(SyncError::Revoked));
    assert_eq!(SyncError::Revoked.message(), "sibling device is revoked");
    let refused = sync_authorized_sibling_devices(
        account.public_key(),
        &laptop_certificate,
        &laptop_certificate,
        &[],
        &mut left,
        &mut right,
        "c",
    )
    .err();
    assert_eq!(refused, Some(SyncError::Crypto(CryptoError::SignatureVerification)));
}

#[test]
fn every_active_device_gets_its_own_delivery() {
    let mut storage = Storage::open_in_memory();
    let account = AccountIdentity::generate();
    let laptop = DeviceIdentity::generate(account.account_id());
    let phone = DeviceIdentity::generate(account.account_id());
    let bob = DeviceIdentity::generate("bob-account");
    for device in [&laptop, &phone] {
        let certificate = account.authorize_device(device);
        persist_phase_5a_identity(&mut storage, &account, device, &certificate);
    }
    let certificates = load_device_certificates(&storage, account.account_id()).unwrap();
    assert_eq!(certificates.len(), 2);
    assert!(load_device_revocations(&storage, account.account_id()).unwrap().is_empty());
    let sessions = open_device_sessions(&bob, account.public_key(), &certificates).unwrap();
    let laptop_at = session_for(&sessions, laptop.device_id()).unwrap();
    let phone_at = session_for(&sessions, phone.device_id()).unwrap();
    assert_eq!(session_for(&sessions, "elsewhere"), None);
    let (sessions, envelopes) = fan_out(&mut storage, sessions, "logical-1", "hello", 1);
    assert_eq!(sessions.len(), 2);
    assert_eq!(envelopes[laptop_at].logical_message_id, envelopes[phone_at].logical_message_id);
    assert_ne!(
        envelopes[laptop_at].message.ciphertext,
        envelopes[phone_at].message.ciphertext
    );
    let mut laptop_session =
        laptop.create_inbound_session(bob.device_id(), bob.x25519_public_key()).unwrap();
    let mut phone_session =
        phone.create_inbound_session(bob.device_id(), bob.x25519_public_key()).unwrap();
    assert_eq!(laptop_session.decrypt(&envelopes[laptop_at]).unwrap(), "hello");
    storage.mark_outbox_delivered(&delivery_outbox_id(&envelopes[laptop_at]));
    assert_eq!(
        read_pending_delivery(&mut storage, &mut laptop_session, 2),
        PendingRead::Nothing
    );
    assert_eq!(
        read_pending_delivery(&mut storage, &mut phone_session, 2),
        PendingRead::Read("hello".to_string())
    );
    assert!(storage.pending_outbox_items().is_empty());

    let revocation = account.revoke_device(phone.device_id(), 1);
    storage.save_device_revocation(
        account.account_id(),
        phone.device_id(),
        1,
        &encode(&revocation),
    );
    let active = active_devices(&storage, account.account_id(), account.public_key()).unwrap();
    assert_eq!(active.len(), 1);
    assert_eq!(active[0].device_id, laptop.device_id());
    storage.save_device_certificate(account.account_id(), "broken", &[1]);
    assert_eq!(
        active_devices(&storage, account.account_id(), account.public_key()).err(),
        Some(DeliveryError::Malformed)
    );
    let stranger = AccountIdentity::generate();
    assert_eq!(
        open_device_sessions(&bob, stranger.public_key(), &certificates).err(),
        Some(CryptoError::SignatureVerification)
    );
    let mut sessions = sessions;
    let again =
        encrypt_and_queue_device_delivery(&mut storage, &mut sessions[0], "logical-2", "x", 3)
            .unwrap();
    assert_eq!(again.message.number, 1);
}

#[test]
fn invites_are_left_and_joined_once() {
    let mut storage = Storage::open_in_memory();
    create_invite(&mut storage, "ABC2D3", "127.0.0.1:5000", 100);
    assert_eq!(
        join_invite(&mut storage, "ABC", 101),
        Err(JoinError::Code(InviteCodeError::WrongLength))
    );
    assert_eq!(join_invite(&mut storage, "ab-c2d3", 101).unwrap(), "127.0.0.1:5000");
    assert_eq!(join_invite(&mut storage, "ABC2D3", 102), Err(JoinError::InvalidInvite));
    create_invite(&mut storage, "ABC2D4", "127.0.0.1:5001", 100);
    assert_eq!(join_invite(&mut storage, "ABC2D4", 400), Err(JoinError::InvalidInvite));
    assert_eq!(JoinError::InvalidInvite.message(), "invalid invite");
    let mut alice = Alice::local();
    let mut bob = Bob::local();
    let shown = invite_scene(&mut storage, &mut alice, &mut bob, "XYZ234", 1000).ok().unwrap();
    assert!(!shown.used_again);
    assert_eq!(shown.safety_number.len(), 40);
    assert!(shown.conversation_id.starts_with("invite-"));
    assert_eq!(storage.load_contact("bob-contact").unwrap().display_name, "Bob");
}

#[test]
fn relayed_message_is_sent_once_and_answered() {
    let mut alice = Alice::local();
    let mut bob = Bob::local();
    let mut sender = RelayedSender::new("bob");
    assert!(!sender.connected("relay"));
    assert!(sender.connected("bob"));
    assert!(!sender.connected("bob"));
    let answer = answer_relayed(&mut bob, CipherMeshRequest::PreKeyBundle).unwrap();
    let bundle = answer.response;
    let step = sender.response(&mut alice, "hello", bundle.clone()).unwrap();
    let RelayedStep::SendInitial(payload) = step else {
        panic!("no message");
    };
    assert_eq!(sender.response(&mut alice, "hello", bundle).unwrap(), RelayedStep::Nothing);
    let answer =
        answer_relayed(&mut bob, CipherMeshRequest::InitialMessage(payload.clone())).unwrap();
    assert_eq!(answer.plaintext.as_deref(), Some("hello"));
    assert_eq!(answer.response, CipherMeshResponse::Ack(b"ok".to_vec()));
    assert_eq!(
        sender.response(&mut alice, "hello", answer.response).unwrap(),
        RelayedStep::Done(b"ok".to_vec())
    );
    let again = answer_relayed(&mut bob, CipherMeshRequest::InitialMessage(payload)).unwrap();
    assert_eq!(again.response, CipherMeshResponse::Error("PreKeyUnavailable".to_string()));
    let broken = answer_relayed(&mut bob, CipherMeshRequest::InitialMessage(vec![1])).unwrap();
    assert_eq!(
        broken.response,
        CipherMeshResponse::Error("malformed pairing payload".to_string())
    );
    assert_eq!(
        answer_relayed(&mut bob, CipherMeshRequest::PreKeyBundle).err(),
        Some(CryptoError::PreKeyUnavailable)
    );
    let mut sender = RelayedSender::new("bob");
    assert_eq!(
        sender.response(&mut alice, "x", CipherMeshResponse::PreKeyBundle(vec![])),
        Err(HandshakeError::Malformed)
    );
    assert_eq!(
        sender.response(&mut alice, "x", CipherMeshResponse::Error("no".to_string())).unwrap(),
        RelayedStep::Refused("no".to_string())
    );
}

fn holds(bytes: &[u8], part: &[u8]) -> bool {
    bytes.windows(part.len()).any(|window| window == part)
}

#[test]
fn outgoing_bytes_are_the_encoded_values_alone() {
    let text = "a text that stays on the device";
    let mut bob = Bob::local();
    let secret = bob.export_state().identity_secret_key;

    let answer = answer_relayed(&mut bob, CipherMeshRequest::PreKeyBundle).unwrap();
    let CipherMeshResponse::PreKeyBundle(bytes) = answer.response.clone() else {
        panic!("no bundle");
    };
    assert_eq!(bytes, encode(&bob.prekey_bundle().unwrap()));
    assert!(!holds(&bytes, &secret));

    let mut alice = Alice::local();
    let step = RelayedSender::new("bob").response(&mut alice, text, answer.response).unwrap();
    let RelayedStep::SendInitial(payload) = step else {
        panic!("no message");
    };
    assert_eq!(payload, encode(&decode::<InitialMessage>(&payload).unwrap()));
    assert!(!holds(&payload, text.as_bytes()));

    let bundle = chat_bundle(&bob, "Bob").unwrap();
    assert_eq!(
        bundle,
        encode(&ChatPreKeyBundle {
            sender_display_name: "Bob".to_string(),
            bundle: bob.prekey_bundle().unwrap(),
        })
    );
    let mut profile = Profile::open_in_memory();
    let chat = answer_chat_bundle(&mut profile, &mut alice, &bundle, "Alice", text, "h", true, 1)
        .ok()
        .unwrap();
    assert_eq!(chat.payload, encode(&decode::<ChatInitialMessage>(&chat.payload).unwrap()));
    assert!(!holds(&chat.payload, text.as_bytes()));

    let mut storage = Storage::open_in_memory();
    let id = queue_durable_message(&mut storage, &mut alice, "c", text, 1).unwrap();
    let payload = storage.outbox_item(&id).unwrap().payload;
    assert_eq!(payload, encode(&decode::<DurableAppEnvelope>(&payload).unwrap()));
    assert!(!holds(&payload, text.as_bytes()));

    let account = AccountIdentity::generate();
    let phone = DeviceIdentity::generate(account.account_id());
    let sender = DeviceIdentity::generate("bob-account");
    let certificate = account.authorize_device(&phone);
    let mut session = sender.create_outbound_session(account.public_key(), &certificate).unwrap();
    let envelope =
        encrypt_and_queue_device_delivery(&mut storage, &mut session, "m", text, 2).unwrap();
    let payload = storage.outbox_item(&delivery_outbox_id(&envelope)).unwrap().payload;
    assert_eq!(payload, encode(&envelope));
    assert!(!holds(&payload, text.as_bytes()));

    let bundle = Bob::mailbox_demo_prekey_bundle().unwrap();
    let envelope =
        prepare_mailbox_deposit(&mut storage, &mut alice, &bundle, text, 100).unwrap();
    let payload = envelope.encrypted_payload;
    assert_eq!(payload, encode(&decode::<InitialMessage>(&payload).unwrap()));
    assert!(!holds(&payload, text.as_bytes()));
}

#[test]
fn peers_are_found_through_their_records() {
    let peer = PeerId::random().to_string();
    let mut discovery = Discovery::new(&peer);
    assert!(!discovery.seen("elsewhere"));
    assert!(discovery.seen(&peer));
    assert!(!discovery.seen(&peer));
    let seen = parse_bootstrap_peers(&[
        "/ip4/0.0.0.0/tcp/1".to_string(),
        "/ip4/10.0.0.7/tcp/1".to_string(),
    ])
    .unwrap();
    assert_eq!(known_ip(&seen), Some(IpAddress::V4([10, 0, 0, 7])));
    assert_eq!(
        socket_from_record(b"/ip4/0.0.0.0/udp/5000".to_vec(), &seen),
        Ok(SocketAddress { ip: IpAddress::V4([10, 0, 0, 7]), port: 5000 })
    );
    assert_eq!(
        socket_from_record(b"/ip4/0.0.0.0/udp/5000".to_vec(), &vec![]),
        Err(RecordError::Address(AppAddressError::UnknownPeerIp))
    );
    assert_eq!(socket_from_record(vec![0xff], &seen), Err(RecordError::NotText));
    assert_eq!(socket_from_record(b"x".to_vec(), &seen), Err(RecordError::NotAnAddress));
    assert_eq!(
        RecordError::NotAnAddress.message(),
        "discovered app address is no multiaddr"
    );
    assert_eq!(
        parse_bootstrap_peers(&["/tcp/1".to_string(), "bad".to_string()]),
        Err("bad".to_string())
    );
    assert_eq!(parse_peer_id(Some(&peer)), Ok(peer.clone()));
    assert_eq!(parse_peer_id(Some("bad")), Err(PeerIdError::Invalid));
    assert_eq!(parse_peer_id(None).unwrap_err().message(), "missing Bob PeerId");
    let address = Address::parse(&format!("/ip4/1.2.3.4/tcp/1/p2p/{peer}")).unwrap();
    assert_eq!(peer_id_from_multiaddr(&address), Some(peer));
    assert_eq!(peer_id_from_multiaddr(&Address { parts: vec![] }), None);
}
