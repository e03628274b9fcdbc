//! Chats over one connection.

use ciphermesh::conversation::{
    ack_frame, keep_line, take_frame, write_line, AwaitStep, FrameError, FrameStep, QueueFlush,
};
use ciphermesh::device_scenes::{
    deliver_at_once, envelope_for, fanout_scene, register_two_devices, revocation_scene,
};
use ciphermesh::fanout::{open_device_sessions, write_to_devices};
use ciphermesh::frames::ChatFrame;
use ciphermesh::handshake::{
    answer_chat_bundle, chat_bundle, keep_first_message, open_chat_direct, HandshakeError,
};
use ciphermesh::profile::{ChatNames, Profile};
use ciphermesh::records::{MessageDirection, MessageStatus};
use ciphermesh::wire::decode;
use ciphermesh::{
    active_device_certificates, AccountIdentity, Alice, Bob, CryptoError, DeviceDeliveryEnvelope,
    DeviceIdentity,
};

struct Side<P> {
    profile: Profile,
    party: P,
    conversation: String,
}

fn direct(hello: &str) -> (Side<Alice>, Side<Bob>) {
    let mut alice = Alice::local();
    let mut bob = Bob::local();
    let mut joining = Profile::open_in_memory();
    let mut waiting = Profile::open_in_memory();
    let bundle = chat_bundle(&bob, "Bob").unwrap();
    let joined =
        answer_chat_bundle(&mut joining, &mut alice, &bundle, "Alice", hello, "h", false, 1)
            .ok()
            .unwrap();
    let opened =
        open_chat_direct(&mut waiting, &mut bob, &joined.payload, "Bob", "h", 2).ok().unwrap();
    assert_eq!(opened.plaintext, hello);
    let names = ChatNames {
        local_display_name: "Alice",
        remote_display_name: "Bob",
        conversation_id: &joined.conversation_id,
    };
    keep_first_message(&mut joining, &names, &joined.payload, hello, 3);
    assert_eq!(joining.storage.load_local_identity("alice"), None);
    assert_eq!(waiting.storage.load_local_identity("bob"), None);
    (
        Side { profile: joining, party: alice, conversation: joined.conversation_id },
        Side { profile: waiting, party: bob, conversation: opened.conversation_id },
    )
}

fn names<'a>(local: &'a str, remote: &'a str, conversation: &'a str) -> ChatNames<'a> {
    ChatNames {
        local_display_name: local,
        remote_display_name: remote,
        conversation_id: conversation,
    }
}

#[test]
fn first_message_is_in_both_histories_unless_empty() {
    let (alice, bob) = direct("hi");
    let sent = alice.profile.storage.messages_for_conversation(&alice.conversation);
    assert_eq!(sent.len(), 1);
    assert_eq!(sent[0].direction, MessageDirection::Sent);
    assert_eq!(sent[0].plaintext.as_deref(), Some("hi"));
    let received = bob.profile.storage.messages_for_conversation(&bob.conversation);
    assert_eq!(received[0].plaintext.as_deref(), Some("hi"));
    let (alice, bob) = direct("");
    assert!(alice.profile.storage.messages_for_conversation(&alice.conversation).is_empty());
    assert!(bob.profile.storage.messages_for_conversation(&bob.conversation).is_empty());
}

#[test]
fn direct_contact_is_saved_though_its_message_is_refused() {
    let mut alice = Alice::local();
    let mut joining = Profile::open_in_memory();
    let mut waiting = Profile::open_in_memory();
    let mut bob = Bob::local();
    let bundle = chat_bundle(&Bob::local(), "Other").unwrap();
    let joined =
        answer_chat_bundle(&mut joining, &mut alice, &bundle, "Alice", "x", "h", false, 1)
            .ok()
            .unwrap();
    let refused = open_chat_direct(&mut waiting, &mut bob, &joined.payload, "Bob", "h", 2).err();
    assert_eq!(refused, Some(HandshakeError::Crypto(CryptoError::Decrypt)));
    assert_eq!(waiting.storage.contacts().len(), 1);
    assert!(matches!(
        open_chat_direct(&mut waiting, &mut bob, &[9], "Bob", "h", 2).err(),
        Some(HandshakeError::Malformed)
    ));
}

#[test]
fn lines_are_taken_once_and_confirmed_each_time() {
    let (mut alice, mut bob) = direct("");
    let alice_names = names("Alice", "Bob", &alice.conversation);
    let bob_names = names("Bob", "Alice", &bob.conversation);
    let (id, frame) = write_line(&mut alice.party, &alice_names, "one", None).unwrap();
    assert!(alice.profile.storage.messages_for_conversation(&alice.conversation).is_empty());
    keep_line(&mut alice.profile, &alice_names, &id, &frame, "one", 5);
    let kept = &alice.profile.storage.messages_for_conversation(&alice.conversation)[0];
    assert_eq!((kept.message_id.as_str(), kept.status.clone()), (id.as_str(), MessageStatus::Sent));
    for text in [Some("one".to_string()), None] {
        let step =
            take_frame(&mut bob.profile, &mut bob.party, &bob_names, &frame, false, 6).unwrap();
        assert_eq!(
            step,
            FrameStep::Message {
                message_id: id.clone(),
                sender_display_name: "Alice".to_string(),
                plaintext: text,
            }
        );
    }
    assert_eq!(bob.profile.storage.load_local_identity("bob"), None);
    let ack = ack_frame(&id);
    assert_eq!(decode::<ChatFrame>(&ack), Some(ChatFrame::Ack { message_id: id.clone() }));
    let step = take_frame(&mut alice.profile, &mut alice.party, &alice_names, &ack, true, 7);
    assert_eq!(step, Ok(FrameStep::Acknowledged { message_id: id }));
    let (id, _) =
        write_line(&mut alice.party, &alice_names, "two", Some("mine".to_string())).unwrap();
    assert_eq!(id, "mine");
}

#[test]
fn frames_are_refused() {
    let (mut alice, mut bob) = direct("");
    let alice_names = names("Alice", "Bob", &alice.conversation);
    let bob_names = names("Bob", "Alice", &bob.conversation);
    let refused = take_frame(&mut bob.profile, &mut bob.party, &bob_names, &[7], true, 6);
    assert_eq!(refused, Err(FrameError::Malformed));
    assert_eq!(FrameError::Malformed.message(), "malformed chat frame");
    let (_, frame) = write_line(&mut alice.party, &alice_names, "one", None).unwrap();
    let mut stranger = Bob::local();
    let refused = take_frame(&mut bob.profile, &mut stranger, &bob_names, &frame, true, 6);
    assert_eq!(refused, Err(FrameError::Crypto(CryptoError::MissingSessionKey)));
    assert_eq!(
        write_line(&mut stranger, &bob_names, "x", None),
        Err(CryptoError::MissingSessionKey)
    );
}

#[test]
fn what_waited_is_delivered_one_by_one() {
    let (mut alice, mut bob) = direct("");
    let alice_names = names("Alice", "Bob", &alice.conversation);
    let bob_names = names("Bob", "Alice", &bob.conversation);
    for (id, text) in [("m1", "one"), ("m2", "two")] {
        alice.profile.track_pending_chat_delivery(&alice.conversation, id, text, 4);
    }
    let mut flush = QueueFlush::start(&alice.profile, &alice.conversation);
    assert_eq!(flush.len(), 2);
    let frame =
        flush.write_next(&mut alice.profile, &mut alice.party, "Alice", 5).unwrap().unwrap();
    let taken = take_frame(&mut bob.profile, &mut bob.party, &bob_names, &frame, true, 6).unwrap();
    assert!(matches!(taken, FrameStep::Message { plaintext: Some(text), .. } if text == "one"));
    let other = flush.take_frame(
        &mut alice.profile,
        &mut alice.party,
        &alice_names,
        &ack_frame("m2"),
        6,
    );
    assert_eq!(
        other,
        Ok(AwaitStep::Other(FrameStep::Acknowledged { message_id: "m2".to_string() }))
    );
    assert_eq!(alice.profile.pending_count(&alice.conversation), 2);
    let confirmed = flush.take_frame(
        &mut alice.profile,
        &mut alice.party,
        &alice_names,
        &ack_frame("m1"),
        6,
    );
    assert_eq!(confirmed, Ok(AwaitStep::Confirmed));
    assert_eq!(alice.profile.pending_count(&alice.conversation), 1);
    assert!(flush.write_next(&mut alice.profile, &mut alice.party, "Alice", 7).is_some());
    assert_eq!(flush.write_next(&mut alice.profile, &mut alice.party, "Alice", 8), None);
    let mut again = QueueFlush::start(&alice.profile, &alice.conversation);
    let mut stranger = Alice::local();
    assert_eq!(
        again.write_next(&mut alice.profile, &mut stranger, "Alice", 9),
        Some(Err(CryptoError::MissingSessionKey))
    );
    assert_eq!(
        again.take_frame(&mut alice.profile, &mut stranger, &alice_names, &[], 9),
        Err(FrameError::Malformed)
    );
}

#[test]
fn revoked_devices_get_no_envelope() {
    let account = AccountIdentity::generate();
    let laptop = DeviceIdentity::generate(account.account_id());
    let phone = DeviceIdentity::generate(account.account_id());
    let bob = DeviceIdentity::generate("bob-account");
    let certificates = [account.authorize_device(&laptop), account.authorize_device(&phone)];
    let revocation = account.revoke_device(phone.device_id(), 1);
    let active =
        active_device_certificates(account.public_key(), &certificates, &[revocation]).unwrap();
    let (sessions, envelopes) =
        write_to_devices(&bob, account.public_key(), &active, "logical", "laptop only").unwrap();
    assert_eq!(sessions.len(), 1);
    assert_eq!(envelopes.len(), 1);
    assert_eq!(envelopes[0].recipient_device_id, laptop.device_id());
    let mut inbound =
        laptop.create_inbound_session(bob.device_id(), bob.x25519_public_key()).unwrap();
    assert_eq!(inbound.decrypt(&envelopes[0]).unwrap(), "laptop only");
    let stranger = AccountIdentity::generate();
    assert_eq!(
        write_to_devices(&bob, stranger.public_key(), &active, "logical", "x").err(),
        Some(CryptoError::SignatureVerification)
    );
}

#[test]
fn two_devices_are_written_to_and_one_catches_up() {
    let account = AccountIdentity::generate();
    let laptop = DeviceIdentity::generate(account.account_id());
    let phone = DeviceIdentity::generate(account.account_id());
    let bob = DeviceIdentity::generate("bob-account");
    let shown = fanout_scene(&account, &laptop, &phone, &bob, 5).ok().unwrap();
    assert_eq!(shown.authorized.len(), 2);
    assert_eq!((shown.waiting.len(), shown.waiting_after.len()), (1, 0));
    assert_eq!(shown.waiting[0].recipient_id, phone.device_id());
    assert_eq!(
        decode::<DeviceDeliveryEnvelope>(&shown.waiting[0].payload).as_ref(),
        Some(&shown.phone_second_envelope)
    );
    assert!(shown.storage.pending_outbox_items().is_empty());
    assert_eq!(shown.laptop_envelope.sender_device_id, bob.device_id());
    assert_eq!(
        (shown.laptop_envelope.message.number, shown.laptop_second_envelope.message.number),
        (0, 1)
    );
    let mut inbound =
        phone.create_inbound_session(bob.device_id(), bob.x25519_public_key()).unwrap();
    assert_eq!(inbound.decrypt(&shown.phone_envelope).unwrap(), "hello alice");
    assert_eq!(inbound.decrypt(&shown.phone_second_envelope).unwrap(), "second message");
    assert_eq!(shown.laptop_first, "hello alice");
    assert_eq!(shown.phone_first, "hello alice");
    assert_eq!(shown.laptop_second, "second message");
    assert_eq!(shown.phone_second, "second message");
    assert_ne!(
        shown.laptop_envelope.message.ciphertext,
        shown.phone_envelope.message.ciphertext
    );
    let envelopes = vec![shown.laptop_envelope, shown.phone_envelope];
    assert_eq!(envelope_for(&envelopes, phone.device_id()), Some(1));
    assert_eq!(envelope_for(&envelopes, "elsewhere"), None);
}

#[test]
fn deliveries_at_once_leave_nothing_waiting() {
    let account = AccountIdentity::generate();
    let laptop = DeviceIdentity::generate(account.account_id());
    let phone = DeviceIdentity::generate(account.account_id());
    let bob = DeviceIdentity::generate("bob-account");
    let (mut storage, certificate, _) = register_two_devices(&account, &laptop, &phone);
    assert_eq!(storage.device_certificates_for_account(account.account_id()).len(), 2);
    let mut sessions =
        open_device_sessions(&bob, account.public_key(), &vec![certificate]).unwrap();
    let mut inbound =
        laptop.create_inbound_session(bob.device_id(), bob.x25519_public_key()).unwrap();
    let (envelope, text) =
        deliver_at_once(&mut storage, &mut sessions[0], &mut inbound, "m", "hi", 1).unwrap();
    assert_eq!(text, "hi");
    assert_eq!(envelope.logical_message_id, "m");
    assert!(storage.pending_outbox_items().is_empty());
}

#[test]
fn revocation_ends_delivery_but_not_history() {
    let account = AccountIdentity::generate();
    let laptop = DeviceIdentity::generate(account.account_id());
    let phone = DeviceIdentity::generate(account.account_id());
    let bob = DeviceIdentity::generate("bob-account");
    let shown = revocation_scene(&account, &laptop, &phone, &bob).ok().unwrap();
    assert_eq!(
        (shown.active_before.len(), shown.active_after.len(), shown.envelopes.len()),
        (2, 1, 1)
    );
    assert_eq!((shown.revocations.len(), shown.history.len()), (1, 1));
    assert_eq!(shown.active_after[0], shown.laptop_certificate);
    assert_eq!(shown.envelopes[0].recipient_device_id, laptop.device_id());
    assert_eq!(shown.sessions[0].remote_device_id(), laptop.device_id());
    assert_eq!(shown.revocations[0].device_id, phone.device_id());
    assert_eq!(shown.history[0].message_id.as_deref(), Some("old-phone-message"));
    assert_eq!(shown.storage.device_revocations_for_account(account.account_id()).len(), 1);
    assert_eq!(shown.storage.device_certificates_for_account(account.account_id()).len(), 2);
    assert_eq!(shown.laptop_text, "future laptop only");
    assert!(!shown.phone_is_written_to && !shown.sync_allowed && shown.sessions_only_to_active);
}
