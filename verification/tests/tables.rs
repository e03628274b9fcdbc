use ciphermesh::crdt::{event_record, materialize_conversation, ConversationEvent};
use ciphermesh::storage::{
    ContactRecord, EventRecord, InviteRecord, MessageDirection, MessageRecord, MessageStatus,
    OutboxItem, OutboxStatus, Storage, VersionVector,
};


#[test]
fn transaction_persists_session_and_message_together() {
    let mut storage = Storage::open_in_memory();
    let message = MessageRecord {
        message_id: "message-1".to_string(),
        conversation_id: "alice-bob".to_string(),
        sender_id: "alice".to_string(),
        recipient_id: "bob".to_string(),
        direction: MessageDirection::Sent,
        status: MessageStatus::Sent,
        protocol_counter: Some(0),
        ciphertext: vec![1, 2, 3],
        plaintext: Some("hello".to_string()),
        created_at_unix_secs: 10,
    };

    storage
        .save_state_session_and_insert_message(
            "alice",
            "alice",
            b"alice-state",
            "alice-bob",
            "bob",
            "alice",
            b"session-state",
            &message,
        );

    assert_eq!(
        storage.load_local_identity("alice"),
        Some(b"alice-state".to_vec())
    );
    assert_eq!(
        storage.load_session("alice-bob"),
        Some(b"session-state".to_vec())
    );
    assert_eq!(
        storage
            .messages_for_conversation("alice-bob")[0]
            .ciphertext,
        vec![1, 2, 3]
    );
}

#[test]
fn outbox_stays_pending_until_ack_marks_delivered() {
    let mut storage = Storage::open_in_memory();
    let message = MessageRecord {
        message_id: "message-1".to_string(),
        conversation_id: "alice-bob".to_string(),
        sender_id: "alice".to_string(),
        recipient_id: "bob".to_string(),
        direction: MessageDirection::Sent,
        status: MessageStatus::Sent,
        protocol_counter: Some(0),
        ciphertext: vec![1, 2, 3],
        plaintext: Some("hello".to_string()),
        created_at_unix_secs: 10,
    };
    let outbox = OutboxItem {
        message_id: message.message_id.clone(),
        recipient_id: "bob".to_string(),
        payload: vec![9, 8, 7],
        status: OutboxStatus::Pending,
        retry_count: 0,
        created_at_unix_secs: 10,
        last_attempt_unix_secs: None,
    };

    storage
        .save_state_session_message_and_outbox(
            "alice",
            "alice",
            b"alice-state",
            "alice-bob",
            "bob",
            "alice",
            b"session-state",
            &message,
            &outbox,
        );

    assert_eq!(storage.pending_outbox_items().len(), 1);
    storage
        .record_outbox_attempt("message-1");
    assert_eq!(
        storage
            .outbox_item("message-1")
            .expect("message exists")
            .retry_count,
        1
    );
    storage
        .mark_outbox_delivered("message-1");
    assert!(storage
        .pending_outbox_items()
        .is_empty());
}

#[test]
fn device_pair_sessions_are_keyed_by_both_devices() {
    let mut storage = Storage::open_in_memory();
    let laptop_outbox = OutboxItem {
        message_id: "logical-1:alice-laptop".to_string(),
        recipient_id: "alice-laptop".to_string(),
        payload: b"laptop-envelope".to_vec(),
        status: OutboxStatus::Pending,
        retry_count: 0,
        created_at_unix_secs: 10,
        last_attempt_unix_secs: None,
    };
    let phone_outbox = OutboxItem {
        message_id: "logical-1:alice-phone".to_string(),
        recipient_id: "alice-phone".to_string(),
        payload: b"phone-envelope".to_vec(),
        status: OutboxStatus::Pending,
        retry_count: 0,
        created_at_unix_secs: 10,
        last_attempt_unix_secs: None,
    };

    storage
        .save_device_pair_session_and_outbox(
            "bob-device",
            "alice-laptop",
            b"laptop-session",
            &laptop_outbox,
        );
    storage
        .save_device_pair_session_and_outbox(
            "bob-device",
            "alice-phone",
            b"phone-session",
            &phone_outbox,
        );

    assert_eq!(
        storage
            .load_device_pair_session("bob-device", "alice-laptop"),
        Some(b"laptop-session".to_vec())
    );
    assert_eq!(
        storage
            .load_device_pair_session("bob-device", "alice-phone"),
        Some(b"phone-session".to_vec())
    );

    storage
        .mark_outbox_delivered("logical-1:alice-laptop");
    let pending = storage.pending_outbox_items();
    assert_eq!(pending.len(), 1);
    assert_eq!(pending[0].recipient_id, "alice-phone");
}

#[test]
fn accepted_messages_deduplicate_retries() {
    let mut storage = Storage::open_in_memory();

    assert!(storage
        .accept_message_once("message-1"));
    assert!(!storage
        .accept_message_once("message-1"));
}

#[test]
fn sync_exchanges_only_missing_events_and_updates_vectors() {
    let mut alice = Storage::open_in_memory();
    let mut bob = Storage::open_in_memory();
    let conversation = "conversation";

    for event in [
        event("AliceDevice", 1),
        event("AliceDevice", 2),
        event("AliceDevice", 3),
        event("BobDevice", 1),
    ] {
        alice.append_event(&event);
    }
    for event in [
        event("AliceDevice", 1),
        event("AliceDevice", 2),
        event("BobDevice", 1),
        event("BobDevice", 2),
    ] {
        bob.append_event(&event);
    }

    assert_eq!(alice.version_vector(conversation), {
        let mut vector = VersionVector::new();
        vector.insert("AliceDevice".to_string(), 3);
        vector.insert("BobDevice".to_string(), 1);
        vector
    });
    assert_eq!(bob.version_vector(conversation), {
        let mut vector = VersionVector::new();
        vector.insert("AliceDevice".to_string(), 2);
        vector.insert("BobDevice".to_string(), 2);
        vector
    });

    let bob_to_alice = bob
        .missing_events_for(conversation, &alice.version_vector(conversation));
    let alice_to_bob = alice
        .missing_events_for(conversation, &bob.version_vector(conversation));

    assert_eq!(
        bob_to_alice
            .iter()
            .map(|event| (&event.device_id, event.counter))
            .collect::<Vec<_>>(),
        vec![(&"BobDevice".to_string(), 2)]
    );
    assert_eq!(
        alice_to_bob
            .iter()
            .map(|event| (&event.device_id, event.counter))
            .collect::<Vec<_>>(),
        vec![(&"AliceDevice".to_string(), 3)]
    );

    alice.append_events(&bob_to_alice);
    bob.append_events(&alice_to_bob);

    let mut expected = VersionVector::new();
    expected.insert("AliceDevice".to_string(), 3);
    expected.insert("BobDevice".to_string(), 2);
    assert_eq!(alice.version_vector(conversation), expected);
    assert_eq!(bob.version_vector(conversation), expected);
}

#[test]
fn own_device_sync_copies_missing_events_without_renumbering() {
    let mut laptop = Storage::open_in_memory();
    let mut phone = Storage::open_in_memory();
    let conversation = "own-device-conversation";

    for counter in 1..=3 {
        let event = own_device_event(conversation, "AliceLaptop", counter);
        laptop.append_event(&event);
        if counter == 1 {
            phone.append_event(&event);
        }
    }

    let missing_for_phone = laptop
        .missing_events_for(conversation, &phone.version_vector(conversation));

    assert_eq!(
        missing_for_phone
            .iter()
            .map(|event| (event.device_id.as_str(), event.counter))
            .collect::<Vec<_>>(),
        vec![("AliceLaptop", 2), ("AliceLaptop", 3)]
    );
    assert_eq!(
        missing_for_phone[0].message_id,
        Some("AliceLaptop-message-2".to_string())
    );

    phone
        .append_events(&missing_for_phone);
    assert_eq!(seen(&phone, conversation, "AliceLaptop"), Some(3));
}

#[test]
fn own_devices_bidirectional_sync_converges_materialized_state() {
    let mut laptop = Storage::open_in_memory();
    let mut phone = Storage::open_in_memory();
    let conversation = "own-device-conversation";

    for counter in 1..=2 {
        laptop
            .append_event(&own_device_event(conversation, "AliceLaptop", counter));
    }
    laptop
        .append_event(&own_device_event(conversation, "AlicePhone", 1));
    phone
        .append_event(&own_device_event(conversation, "AliceLaptop", 1));
    phone
        .append_event(&own_device_event(conversation, "AlicePhone", 1));
    phone
        .append_event(&own_device_event(conversation, "AlicePhone", 2));

    let phone_missing = laptop
        .missing_events_for(conversation, &phone.version_vector(conversation));
    let laptop_missing = phone
        .missing_events_for(conversation, &laptop.version_vector(conversation));
    phone.append_events(&phone_missing);
    laptop.append_events(&laptop_missing);

    let mut expected = VersionVector::new();
    expected.insert("AliceLaptop".to_string(), 2);
    expected.insert("AlicePhone".to_string(), 2);
    assert_eq!(laptop.version_vector(conversation), expected);
    assert_eq!(phone.version_vector(conversation), expected);
    assert_eq!(
        materialize_conversation(&all_events_for(&laptop, conversation)),
        materialize_conversation(&all_events_for(&phone, conversation))
    );
}

#[test]
fn duplicate_own_device_sync_delivery_is_idempotent() {
    let mut laptop = Storage::open_in_memory();
    let mut phone = Storage::open_in_memory();
    let conversation = "own-device-conversation";
    let event = own_device_event(conversation, "AliceLaptop", 1);

    laptop.append_event(&event);
    let missing = laptop
        .missing_events_for(conversation, &phone.version_vector(conversation));

    assert_eq!(phone.append_events(&missing), 1);
    assert_eq!(phone.append_events(&missing), 0);
    assert_eq!(
        materialize_conversation(&all_events_for(&phone, conversation))
            .messages
            .len(),
        1
    );
}

#[test]
fn duplicate_event_delivery_is_idempotent() {
    let mut storage = Storage::open_in_memory();
    let event = event("AliceDevice", 1);

    assert!(storage.append_event(&event));
    assert!(!storage.append_event(&event));
    assert_eq!(seen(&storage, "conversation", "AliceDevice"), Some(1));
}

#[test]
fn out_of_order_event_arrival_advances_when_gap_fills() {
    let mut storage = Storage::open_in_memory();

    storage
        .append_event(&event("AliceDevice", 2));
    assert_eq!(seen(&storage, "conversation", "AliceDevice"), Some(0));

    storage
        .append_event(&event("AliceDevice", 1));
    assert_eq!(seen(&storage, "conversation", "AliceDevice"), Some(2));
}

#[test]
fn missing_counter_gap_blocks_vector_advancement() {
    let mut storage = Storage::open_in_memory();

    storage.append_event(&event("AliceDevice", 1));
    storage.append_event(&event("AliceDevice", 2));
    storage.append_event(&event("AliceDevice", 4));

    assert_eq!(seen(&storage, "conversation", "AliceDevice"), Some(2));
}

#[test]
fn account_device_identity_records_persist() {
    let mut storage = Storage::open_in_memory();

    storage
        .save_account_identity("acct-1", b"account-public", Some(b"account-secret".as_slice()));
    storage
        .save_device_identity(
            "dev-laptop",
            "acct-1",
            b"device-ed-public",
            b"device-ed-secret",
            b"device-x-public",
            b"device-x-private",
        );
    storage
        .save_device_certificate("acct-1", "dev-laptop", b"cert-laptop");
    storage
        .save_device_certificate("acct-1", "dev-phone", b"cert-phone");

    assert_eq!(
        storage.load_account_secret_key("acct-1"),
        Some(b"account-secret".to_vec())
    );
    assert_eq!(
        storage
            .device_certificates_for_account("acct-1"),
        vec![b"cert-laptop".to_vec(), b"cert-phone".to_vec()]
    );
}

#[test]
fn device_revocation_records_are_idempotent() {
    let mut storage = Storage::open_in_memory();

    storage
        .save_device_revocation("acct-1", "dev-phone", 1, b"revocation-v1");
    storage
        .save_device_revocation("acct-1", "dev-phone", 1, b"revocation-v1");

    assert_eq!(
        storage
            .device_revocations_for_account("acct-1"),
        vec![b"revocation-v1".to_vec()]
    );
}

#[test]
fn invite_records_are_single_use_and_expire() {
    let mut storage = Storage::open_in_memory();
    storage
        .save_invite_record(&InviteRecord {
            code_hash: "hash-1".to_string(),
            rendezvous_payload: "peer-hint".to_string(),
            expires_at_unix_secs: 105,
            consumed_at_unix_secs: None,
            created_at_unix_secs: 100,
        });

    let consumed = storage
        .consume_invite_record("hash-1", 101)
        .expect("invite");
    assert_eq!(consumed.rendezvous_payload, "peer-hint");
    assert_eq!(
        storage
            .consume_invite_record("hash-1", 102),
        None
    );

    storage
        .save_invite_record(&InviteRecord {
            code_hash: "hash-2".to_string(),
            rendezvous_payload: "expired".to_string(),
            expires_at_unix_secs: 200,
            consumed_at_unix_secs: None,
            created_at_unix_secs: 100,
        });
    assert_eq!(
        storage
            .consume_invite_record("hash-2", 200),
        None
    );
}

#[test]
fn saved_contact_appears_in_chat_summaries_with_last_message() {
    let mut storage = Storage::open_in_memory();
    storage
        .save_contact(&ContactRecord {
            contact_id: "contact-james".to_string(),
            display_name: "James".to_string(),
            identity_public_key: b"james-identity".to_vec(),
            discovery_hint: "direct QUIC".to_string(),
            saved_at_unix_secs: 100,
        });
    storage
        .insert_message(&message("msg-1", "contact-james", "hey are you free later"));

    let summaries = storage.chat_summaries();

    assert_eq!(summaries.len(), 1);
    assert_eq!(summaries[0].contact.display_name, "James");
    assert_eq!(
        summaries[0]
            .last_message
            .as_ref()
            .and_then(|message| message.plaintext.as_deref()),
        Some("hey are you free later")
    );
}

#[test]
fn duplicate_history_message_id_renders_once() {
    let mut storage = Storage::open_in_memory();
    let record = message("duplicate-msg", "contact-james", "hello once");

    storage.insert_message(&record);
    storage.insert_message(&record);

    assert_eq!(
        storage
            .messages_for_conversation("contact-james")
            .len(),
        1
    );
}

fn event(device_id: &str, counter: u64) -> EventRecord {
    EventRecord {
        device_id: device_id.to_string(),
        counter,
        conversation_id: "conversation".to_string(),
        event_type: "message".to_string(),
        message_id: Some(format!("{device_id}-{counter}")),
        payload: format!("{device_id}:{counter}").into_bytes(),
        created_at_unix_secs: 10 + counter,
    }
}

fn own_device_event(conversation: &str, device_id: &str, counter: u64) -> EventRecord {
    event_record(
        conversation,
        device_id,
        counter,
        ConversationEvent::MessageCreated {
            message_id: format!("{device_id}-message-{counter}"),
            author_id: "alice-account".to_string(),
            payload: format!("{device_id} event {counter}").into_bytes(),
        },
    )
}

fn all_events_for(storage: &Storage, conversation: &str) -> Vec<EventRecord> {
    storage
        .missing_events_for(conversation, &VersionVector::new())
}

fn message(message_id: &str, conversation_id: &str, plaintext: &str) -> MessageRecord {
    MessageRecord {
        message_id: message_id.to_string(),
        conversation_id: conversation_id.to_string(),
        sender_id: "you".to_string(),
        recipient_id: "James".to_string(),
        direction: MessageDirection::Sent,
        status: MessageStatus::Sent,
        protocol_counter: Some(1),
        ciphertext: b"ciphertext".to_vec(),
        plaintext: Some(plaintext.to_string()),
        created_at_unix_secs: 120,
    }
}

fn seen(storage: &Storage, conversation: &str, device_id: &str) -> Option<u64> {
    storage.version_vector(conversation).get(&device_id.to_string()).copied()
}
