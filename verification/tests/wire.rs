//! The binary form of what travels and of what is stored.

use ciphermesh::chat::contact_id_for_identity;
use ciphermesh::frames::{
    bob_exchange_from_payload, decode_chat_initial_message, decode_chat_prekey_bundle, ChatFrame,
    ChatInitialMessage, ChatPreKeyBundle, DurableAppEnvelope, LegacyChatInitialMessage,
    PayloadError,
};
use ciphermesh::invite::HexError;
use ciphermesh::records::EventRecord;
use ciphermesh::states::{
    restore_alice, restore_bob, restore_device_session, restore_ratchet, store_alice, store_bob,
    store_device_session, store_ratchet,
};
use ciphermesh::wire::{decode, encode, Listing, Maybe};
use ciphermesh::{
    AccountIdentity, Alice, Bob, DeviceCertificate, DeviceDeliveryEnvelope, DeviceIdentity,
    InitialMessage, PreKeyBundle, RatchetMessage, SignedKeyExchange,
};

fn message() -> RatchetMessage {
    RatchetMessage { number: 7, ratchet_public_key: [9; 32], ciphertext: vec![1, 2, 3] }
}

fn initial() -> InitialMessage {
    InitialMessage {
        alice_initial_public_key: [4; 32],
        one_time_prekey_id: 5,
        message: message(),
    }
}

type MessageParts = (u64, [u8; 32], Vec<u8>);

fn message_parts() -> MessageParts {
    (7, [9; 32], vec![1, 2, 3])
}

#[test]
fn values_are_written_field_by_field() {
    assert_eq!(encode(&message()), bincode::serialize(&message_parts()).unwrap());
    assert_eq!(
        encode(&initial()),
        bincode::serialize(&([4u8; 32], 5u64, message_parts())).unwrap()
    );
    let bundle = Bob::mailbox_demo_prekey_bundle().unwrap();
    assert_eq!(
        encode(&bundle),
        bincode::serialize(&(
            bundle.identity_public_key,
            bundle.signed_prekey_public_key,
            bundle.signed_prekey_signature.clone(),
            bundle.one_time_prekey_id,
            bundle.one_time_prekey_public_key,
        ))
        .unwrap()
    );
    let event = EventRecord {
        device_id: "d".to_string(),
        counter: 2,
        conversation_id: "c".to_string(),
        event_type: "message".to_string(),
        message_id: Some("m".to_string()),
        payload: vec![8],
        created_at_unix_secs: 3,
    };
    let parts = ("d", 2u64, "c", "message", Some("m"), vec![8u8], 3u64);
    assert_eq!(encode(&event), bincode::serialize(&parts).unwrap());
    let list = Listing { items: vec![event.clone(), event.clone()] };
    assert_eq!(encode(&list), bincode::serialize(&vec![parts.clone(), parts]).unwrap());
    assert_eq!(decode::<Listing<EventRecord>>(&encode(&list)).unwrap().items, list.items);
}

#[test]
fn frames_are_written_behind_their_kind() {
    let frame = ChatFrame::Message {
        message_id: "id".to_string(),
        sender_display_name: "Ada".to_string(),
        message: message(),
    };
    let bytes = encode(&frame);
    assert_eq!(
        bytes,
        bincode::serialize(&(0u32, "id", "Ada", message_parts())).unwrap()
    );
    assert_eq!(decode::<ChatFrame>(&bytes), Some(frame));
    let ack = ChatFrame::Ack { message_id: "id".to_string() };
    assert_eq!(encode(&ack), bincode::serialize(&(1u32, "id")).unwrap());
    assert_eq!(decode::<ChatFrame>(&encode(&ack)), Some(ack));
    assert_eq!(decode::<ChatFrame>(&bincode::serialize(&(2u32, "id")).unwrap()), None);
    assert_eq!(decode::<ChatFrame>(&[0, 0]), None);
    assert_eq!(decode::<ChatFrame>(&bytes[..bytes.len() - 1]), None);
}

#[test]
fn what_follows_a_value_is_ignored() {
    let mut bytes = encode(&message());
    bytes.push(255);
    assert_eq!(decode::<RatchetMessage>(&bytes), Some(message()));
    assert_eq!(decode::<u64>(&[1, 0, 0, 0, 0, 0, 0, 0, 9]), Some(1));
    assert_eq!(decode::<u64>(&[1, 0, 0]), None);
    assert_eq!(decode::<String>(&bincode::serialize("ok").unwrap()), Some("ok".to_string()));
    assert_eq!(decode::<String>(&bincode::serialize(&vec![0xffu8, 0xfe]).unwrap()), None);
    assert_eq!(decode::<[u8; 32]>(&[3; 40]), Some([3; 32]));
    assert_eq!(decode::<[u8; 32]>(&[3; 31]), None);
    assert_eq!(decode::<Maybe<u64>>(&[0]).unwrap().value, None);
    assert_eq!(decode::<Maybe<u64>>(&[1, 2, 0, 0, 0, 0, 0, 0, 0]).unwrap().value, Some(2));
    assert!(decode::<Maybe<u64>>(&[2, 2, 0, 0, 0, 0, 0, 0, 0]).is_none());
    assert!(decode::<Listing<u64>>(&[2, 0, 0, 0, 0, 0, 0, 0, 1]).is_none());
}

#[test]
fn names_come_with_bundles_and_first_messages() {
    let bundle = Bob::mailbox_demo_prekey_bundle().unwrap();
    let named = ChatPreKeyBundle {
        sender_display_name: "  Ada  ".to_string(),
        bundle: bundle.clone(),
    };
    assert_eq!(
        decode_chat_prekey_bundle(&encode(&named)),
        Some(("Ada".to_string(), bundle.clone()))
    );
    assert_eq!(
        decode_chat_prekey_bundle(&encode(&bundle)),
        Some(("Anonymous".to_string(), bundle))
    );
    assert_eq!(decode_chat_prekey_bundle(&[1, 2, 3]), None);

    let named = ChatInitialMessage {
        sender_display_name: "Bea".to_string(),
        sender_identity_public_key: Some([6; 32]),
        message: initial(),
    };
    assert_eq!(decode_chat_initial_message(&encode(&named)), Some(named));
    let legacy = LegacyChatInitialMessage {
        sender_display_name: " ".to_string(),
        message: initial(),
    };
    let read = decode_chat_initial_message(&encode(&legacy)).unwrap();
    assert_eq!(read.sender_display_name, "Anonymous");
    assert_eq!(read.sender_identity_public_key, None);
    assert_eq!(read.message, initial());
    let read = decode_chat_initial_message(&encode(&initial())).unwrap();
    assert_eq!(read.sender_display_name, "Anonymous");
    assert_eq!(read.message, initial());
    assert_eq!(decode_chat_initial_message(&[]), None);
}

#[test]
fn rendezvous_payloads_hold_a_key_exchange() {
    let exchange = Bob::local().signed_key_exchange();
    let text = ciphermesh::bytes::hex_encode(&encode(&exchange));
    assert_eq!(bob_exchange_from_payload(&text), Ok(exchange));
    assert_eq!(bob_exchange_from_payload("0"), Err(PayloadError::Hex(HexError::OddLength)));
    assert_eq!(bob_exchange_from_payload("00"), Err(PayloadError::Malformed));
    assert_eq!(decode::<SignedKeyExchange>(&[0; 8]), None);
}

#[test]
fn parties_are_restored_as_they_were() {
    let mut alice = Alice::local();
    let mut bob = Bob::local();
    alice.derive_session_key(&bob.signed_key_exchange()).unwrap();
    bob.derive_session_key(&alice.signed_key_exchange()).unwrap();
    let skipped = alice.encrypt_for_bob("first").unwrap();
    let second = alice.encrypt_for_bob("second").unwrap();
    assert_eq!(bob.decrypt_from_alice(&second).unwrap(), "second");
    let mut restored = restore_bob(&store_bob(&bob)).unwrap();
    assert_eq!(restored.export_state(), bob.export_state());
    assert_eq!(restored.decrypt_from_alice(&skipped).unwrap(), "first");
    let mut writer = restore_alice(&store_alice(&alice)).unwrap();
    assert_eq!(writer.export_state(), alice.export_state());
    let third = writer.encrypt_for_bob("third").unwrap();
    assert_eq!(restored.decrypt_from_alice(&third).unwrap(), "third");
    let session = bob.session_state().unwrap();
    assert_eq!(restore_ratchet(&store_ratchet(&session)), Some(session));
    assert!(restore_alice(&[1]).is_none());
    assert!(restore_bob(&store_alice(&alice)[..40]).is_none());
}

#[test]
fn stored_states_have_the_usual_layout() {
    let alice = Alice::local();
    let state = alice.export_state();
    let none: Option<u64> = None;
    assert_eq!(
        store_alice(&alice),
        bincode::serialize(&(state.identity_secret_key, state.x25519_private_key, none)).unwrap()
    );
    let mut bob = Bob::local();
    bob.derive_session_key(&alice.signed_key_exchange()).unwrap();
    let state = bob.export_state();
    let session = state.session.clone().unwrap();
    let prekey = state.one_time_prekey.clone().unwrap();
    assert_eq!(
        store_bob(&bob),
        bincode::serialize(&(
            state.identity_secret_key,
            state.x25519_private_key,
            state.signed_prekey_private_key,
            Some((prekey.id, prekey.private_key)),
            Some((
                1u32,
                session.root_key,
                session.send_chain_key,
                session.recv_chain_key,
                session.send_count,
                session.recv_count,
                session.skipped_message_keys.clone(),
                session.consumed_message_numbers.clone(),
                session.dh_private_key,
                session.peer_ratchet_public_key,
            )),
        ))
        .unwrap()
    );
}

#[test]
fn devices_and_envelopes_are_read_back() {
    let account = AccountIdentity::generate();
    let device = DeviceIdentity::generate(account.account_id());
    let certificate = account.authorize_device(&device);
    assert_eq!(decode::<DeviceCertificate>(&encode(&certificate)), Some(certificate.clone()));
    let revocation = account.revoke_device(device.device_id(), 3);
    assert_eq!(decode(&encode(&revocation)), Some(revocation));
    let other = DeviceIdentity::generate("other");
    let mut session = other.create_outbound_session(account.public_key(), &certificate).unwrap();
    let envelope = session.encrypt("logical", "hello").unwrap();
    assert_eq!(decode::<DeviceDeliveryEnvelope>(&encode(&envelope)), Some(envelope.clone()));
    let restored = restore_device_session(&store_device_session(&session)).unwrap();
    assert_eq!(restored.export_state(), session.export_state());
    let durable = DurableAppEnvelope { message_id: "m".to_string(), message: envelope.message };
    assert_eq!(decode(&encode(&durable)), Some(durable));
    let bundle = Bob::mailbox_demo_prekey_bundle().unwrap();
    assert_eq!(decode::<PreKeyBundle>(&encode(&bundle)), Some(bundle));
    assert_eq!(contact_id_for_identity(&[0; 32]).len(), 24);
}
