use ciphermesh::crdt::{event_record, materialize_conversation, ConversationEvent};
use ciphermesh::mailbox_storage::{MailboxEnvelopeRecord, MailboxStorage};
use ciphermesh::ratchet::MAX_SKIPPED_MESSAGE_KEYS;
use ciphermesh::storage::{
    EventRecord, MessageDirection, MessageRecord, MessageStatus, OutboxItem, OutboxStatus, Storage,
    VersionVector,
};
use ciphermesh::{
    active_device_certificates, AccountIdentity, Alice, Bob, CryptoError, DeviceIdentity,
    RatchetMessage,
};

type EnvelopeWire = (String, (u64, [u8; 32], Vec<u8>));
type EventWire = (String, u64, String, String, Option<String>, Vec<u8>, u64);

#[derive(Debug, Clone, PartialEq, Eq)]
struct HardeningEnvelope {
    message_id: String,
    message: RatchetMessage,
}

#[derive(Debug, Clone, PartialEq, Eq)]
struct HardeningAck {
    message_id: String,
}

fn envelope_bytes(envelope: &HardeningEnvelope) -> Vec<u8> {
    let wire: EnvelopeWire = (
        envelope.message_id.clone(),
        (
            envelope.message.number,
            envelope.message.ratchet_public_key,
            envelope.message.ciphertext.clone(),
        ),
    );
    bincode::serialize(&wire).expect("serialize envelope")
}

fn envelope_of(bytes: &[u8]) -> Result<HardeningEnvelope, String> {
    let wire: EnvelopeWire = bincode::deserialize(bytes).map_err(|error| error.to_string())?;
    Ok(HardeningEnvelope {
        message_id: wire.0,
        message: RatchetMessage {
            number: (wire.1).0,
            ratchet_public_key: (wire.1).1,
            ciphertext: (wire.1).2,
        },
    })
}

fn event_bytes(event: &EventRecord) -> Vec<u8> {
    let wire: EventWire = (
        event.device_id.clone(),
        event.counter,
        event.conversation_id.clone(),
        event.event_type.clone(),
        event.message_id.clone(),
        event.payload.clone(),
        event.created_at_unix_secs,
    );
    bincode::serialize(&wire).expect("serialize event")
}

fn event_of(bytes: &[u8]) -> EventRecord {
    let wire: EventWire = bincode::deserialize(bytes).expect("deserialize event");
    EventRecord {
        device_id: wire.0,
        counter: wire.1,
        conversation_id: wire.2,
        event_type: wire.3,
        message_id: wire.4,
        payload: wire.5,
        created_at_unix_secs: wire.6,
    }
}

#[derive(Debug, Clone, PartialEq, Eq)]
enum Fault {
    Drop,
    Delay,
    Duplicate,
    Reorder,
    Replay,
    Tamper(usize),
    Partition,
}

#[derive(Default)]
struct FaultInjector {
    delayed: Vec<(String, Vec<u8>)>,
    replayed: Vec<(String, Vec<u8>)>,
    logs: Vec<String>,
}

impl FaultInjector {
    fn deliver(&mut self, id: &str, payload: Vec<u8>, faults: &[Fault]) -> Vec<Vec<u8>> {
        if faults.contains(&Fault::Partition) {
            self.logs.push(format!("[FAULT] partitioned {id}"));
            return Vec::new();
        }
        if faults.contains(&Fault::Drop) {
            self.logs.push(format!("[FAULT] dropped {id}"));
            return Vec::new();
        }

        let mut payload = payload;
        for fault in faults {
            if let Fault::Tamper(index) = fault {
                if let Some(byte) = payload.get_mut(*index) {
                    *byte ^= 0x01;
                    self.logs.push(format!("[FAULT] tampered {id}"));
                }
            }
        }

        if faults.contains(&Fault::Delay) {
            self.logs.push(format!("[FAULT] delayed {id}"));
            self.delayed.push((id.to_string(), payload.clone()));
            return Vec::new();
        }

        let mut delivered = vec![payload.clone()];
        if faults.contains(&Fault::Duplicate) {
            self.logs.push(format!("[FAULT] duplicated {id}"));
            delivered.push(payload.clone());
        }
        if faults.contains(&Fault::Replay) {
            self.logs.push(format!("[FAULT] replay scheduled {id}"));
            self.replayed.push((id.to_string(), payload));
        }
        if faults.contains(&Fault::Reorder) {
            self.logs.push("[FAULT] reordered batch".to_string());
            delivered.reverse();
        }

        delivered
    }

    fn flush_delayed(&mut self) -> Vec<Vec<u8>> {
        let mut flushed = std::mem::take(&mut self.delayed);
        flushed.sort_by(|left, right| right.0.cmp(&left.0));
        flushed.into_iter().map(|(_, payload)| payload).collect()
    }

    fn replay(&self) -> Vec<Vec<u8>> {
        self.replayed
            .iter()
            .map(|(_, payload)| payload.clone())
            .collect()
    }
}

#[test]
fn fault_injector_is_deterministic_and_disabled_by_default() {
    let payload = b"encrypted bytes".to_vec();
    let mut injector = FaultInjector::default();

    assert_eq!(
        injector.deliver("M1", payload.clone(), &[]),
        vec![payload.clone()]
    );
    assert!(injector.logs.is_empty());

    assert!(injector
        .deliver("M2", payload.clone(), &[Fault::Drop])
        .is_empty());
    assert!(injector
        .deliver("M3", payload.clone(), &[Fault::Delay])
        .is_empty());
    assert_ne!(
        injector.deliver("M4", payload.clone(), &[Fault::Tamper(0)]),
        vec![payload.clone()]
    );
    assert_eq!(injector.flush_delayed(), vec![payload]);
    assert!(injector
        .logs
        .iter()
        .any(|line| line == "[FAULT] dropped M2"));
    assert!(injector
        .logs
        .iter()
        .any(|line| line == "[FAULT] delayed M3"));
    assert!(injector
        .logs
        .iter()
        .any(|line| line == "[FAULT] tampered M4"));
}

#[test]
fn dropped_message_and_partition_leave_outbox_pending_until_retry() {
    let mut sender = Storage::open_in_memory();
    let mut receiver = Storage::open_in_memory();
    let (mut alice, mut bob) = paired_alice_bob();
    let outbox = queue_alice_message(&mut sender, &mut alice, "M1", "drop then retry");
    let mut fault = FaultInjector::default();

    assert!(fault
        .deliver(&outbox.message_id, outbox.payload.clone(), &[Fault::Drop])
        .is_empty());
    assert_eq!(sender.pending_outbox_items().len(), 1);

    sender.record_outbox_attempt(&outbox.message_id);
    for payload in fault.deliver(&outbox.message_id, outbox.payload.clone(), &[]) {
        let ack = receive_for_bob(&mut receiver, &mut bob, &payload).expect("retry accepted");
        sender.mark_outbox_delivered(&ack.message_id);
    }

    assert!(sender.pending_outbox_items().is_empty());
    assert!(fault.logs.iter().any(|line| line == "[FAULT] dropped M1"));

    let partitioned = queue_alice_message(&mut sender, &mut alice, "M2", "partitioned");
    assert!(fault
        .deliver(
            &partitioned.message_id,
            partitioned.payload,
            &[Fault::Partition]
        )
        .is_empty());
    assert_eq!(sender.pending_outbox_items().len(), 1);
}

#[test]
fn dropped_ack_causes_retry_without_duplicate_processing() {
    let mut sender = Storage::open_in_memory();
    let mut receiver = Storage::open_in_memory();
    let (mut alice, mut bob) = paired_alice_bob();
    let outbox = queue_alice_message(&mut sender, &mut alice, "M1", "ack may drop");
    let payload = outbox.payload.clone();

    let ack = receive_for_bob(&mut receiver, &mut bob, &payload).expect("first receive");
    let mut fault = FaultInjector::default();
    assert!(fault
        .deliver(
            &ack.message_id,
            bincode::serialize(&ack.message_id).unwrap(),
            &[Fault::Drop]
        )
        .is_empty());
    assert_eq!(sender.pending_outbox_items().len(), 1);

    sender.record_outbox_attempt(&outbox.message_id);
    let retry_ack = receive_for_bob(&mut receiver, &mut bob, &payload).expect("duplicate ack");
    sender.mark_outbox_delivered(&retry_ack.message_id);

    assert!(sender.pending_outbox_items().is_empty());
    assert_eq!(
        receiver
            .messages_for_conversation("hardening")
            .len(),
        1
    );
}

#[test]
fn duplicate_delayed_reordered_and_replayed_delivery_processes_once() {
    let mut receiver = Storage::open_in_memory();
    let (mut alice, mut bob) = paired_alice_bob();
    let first = hardening_payload(&mut alice, "M1", "first");
    let second = hardening_payload(&mut alice, "M2", "second");
    let mut fault = FaultInjector::default();
    let mut delivered = Vec::new();

    delivered.extend(fault.deliver("M1", first.clone(), &[Fault::Delay, Fault::Replay]));
    delivered.extend(fault.deliver("M2", second, &[Fault::Duplicate]));
    delivered.extend(fault.flush_delayed());
    delivered.extend(fault.replay());
    delivered.reverse();

    for payload in delivered {
        let _ = receive_for_bob(&mut receiver, &mut bob, &payload);
    }

    assert_eq!(
        receiver
            .messages_for_conversation("hardening")
            .len(),
        2
    );
    assert!(fault.logs.iter().any(|line| line == "[FAULT] delayed M1"));
    assert!(fault
        .logs
        .iter()
        .any(|line| line == "[FAULT] duplicated M2"));
}

#[test]
fn mailbox_fallback_and_duplicate_direct_mailbox_delivery_process_once() {
    let mut receiver = Storage::open_in_memory();
    let mut mailbox = MailboxStorage::open_in_memory(8);
    let (mut alice, mut bob) = paired_alice_bob();
    let payload = hardening_payload(&mut alice, "M1", "via mailbox");

    mailbox
        .deposit(
            &MailboxEnvelopeRecord {
                message_id: "M1".to_string(),
                recipient_token: "bob-device".to_string(),
                encrypted_payload: payload.clone(),
                created_at_unix_secs: 1,
                expires_at_unix_secs: None,
            },
            1,
        )
        .expect("deposit");
    receive_for_bob(&mut receiver, &mut bob, &payload).expect("direct receive");
    let fetched = mailbox.fetch_pending("bob-device", 2);
    let ack = receive_for_bob(&mut receiver, &mut bob, &fetched[0].encrypted_payload)
        .expect("mailbox duplicate ack");
    mailbox.acknowledge_retrieval(&ack.message_id, 3);

    assert_eq!(
        receiver
            .messages_for_conversation("hardening")
            .len(),
        1
    );
    assert_eq!(mailbox.pending_count(), 0);
}

#[test]
fn tampered_ciphertext_and_authentication_tag_are_rejected() {
    let (_alice, mut bob, mut payload) = encrypted_payload_for_bob("M1", "do not alter");
    let mut receiver = Storage::open_in_memory();
    let mut tampered_body = payload.clone();

    let middle = tampered_body.len() / 2;
    tampered_body[middle] ^= 0x01;
    assert!(receive_for_bob(&mut receiver, &mut bob, &tampered_body).is_err());

    let (_alice, mut bob, tag_payload) = encrypted_payload_for_bob("M2", "tag check");
    let mut tampered_tag = tag_payload;
    let last = tampered_tag.len() - 1;
    tampered_tag[last] ^= 0x01;
    assert!(receive_for_bob(&mut receiver, &mut bob, &tampered_tag).is_err());

    payload[0] ^= 0x01;
    assert!(envelope_of(&payload).is_err());
}

#[test]
fn skipped_key_bound_is_enforced() {
    let mut alice = Alice::local();
    let mut bob = Bob::local();
    let alice_exchange = alice.signed_key_exchange();
    let bob_exchange = bob.signed_key_exchange();
    alice.derive_session_key(&bob_exchange).unwrap();
    bob.derive_session_key(&alice_exchange).unwrap();

    let mut messages = Vec::new();
    for index in 0..=MAX_SKIPPED_MESSAGE_KEYS as u64 + 1 {
        messages.push(
            alice
                .encrypt_for_bob(&format!("message {index}"))
                .expect("encrypt"),
        );
    }

    assert_eq!(
        bob.decrypt_from_alice(messages.last().unwrap()),
        Err(CryptoError::TooManySkippedMessages)
    );
}

#[test]
fn revoked_device_gets_no_future_hardening_envelope() {
    let account = AccountIdentity::generate();
    let laptop = DeviceIdentity::generate(account.account_id());
    let phone = DeviceIdentity::generate(account.account_id());
    let bob = DeviceIdentity::generate("bob-account");
    let laptop_cert = account.authorize_device(&laptop);
    let phone_cert = account.authorize_device(&phone);
    let revocation = account.revoke_device(phone.device_id(), 1);
    let active = active_device_certificates(
        account.public_key(),
        &[laptop_cert.clone(), phone_cert],
        &[revocation],
    )
    .expect("active devices");

    let mut envelopes = Vec::new();
    for certificate in active {
        let mut session = bob
            .create_outbound_session(account.public_key(), &certificate)
            .expect("session");
        envelopes.push(session.encrypt("M1", "future only").unwrap());
    }

    assert_eq!(envelopes.len(), 1);
    assert_eq!(envelopes[0].recipient_device_id, laptop_cert.device_id);
}

#[test]
fn eventually_same_valid_event_set_converges_despite_faults() {
    let mut alice = Storage::open_in_memory();
    let mut bob = Storage::open_in_memory();
    let conversation = "hardening-crdt";
    let events = [
        crdt_message(conversation, "AliceDevice", 1, "message-1", "alice"),
        crdt_reaction(conversation, "BobDevice", 1, "message-1", "+1", "bob"),
        crdt_delete(conversation, "AliceDevice", 2, "message-1"),
        crdt_read(conversation, "BobDevice", 2, "AliceDevice", 2),
    ];
    let mut fault = FaultInjector::default();
    let mut encoded = events
        .iter()
        .map(event_bytes)
        .collect::<Vec<_>>();
    encoded.reverse();

    for payload in encoded.clone() {
        let decoded = event_of(&payload);
        alice.append_event(&decoded);
    }
    for payload in fault.deliver(
        "events",
        event_bytes(&events[0]),
        &[Fault::Duplicate],
    ) {
        let decoded = event_of(&payload);
        bob.append_event(&decoded);
    }
    for payload in encoded {
        let decoded = event_of(&payload);
        bob.append_event(&decoded);
    }

    assert_eq!(
        materialize_conversation(&all_events(&alice, conversation)),
        materialize_conversation(&all_events(&bob, conversation))
    );
}

#[test]
fn multiple_alice_devices_create_events_offline_then_sync_converges() {
    let mut laptop = Storage::open_in_memory();
    let mut phone = Storage::open_in_memory();
    let conversation = "hardening-own-devices";

    laptop
        .append_event(&crdt_message(
            conversation,
            "AliceLaptop",
            1,
            "laptop-message",
            "alice",
        ));
    phone
        .append_event(&crdt_message(
            conversation,
            "AlicePhone",
            1,
            "phone-message",
            "alice",
        ));

    let phone_missing = laptop
        .missing_events_for(conversation, &phone.version_vector(conversation));
    let laptop_missing = phone
        .missing_events_for(conversation, &laptop.version_vector(conversation));
    phone.append_events(&phone_missing);
    laptop.append_events(&laptop_missing);

    assert_eq!(
        materialize_conversation(&all_events(&laptop, conversation)),
        materialize_conversation(&all_events(&phone, conversation))
    );
}

fn paired_alice_bob() -> (Alice, Bob) {
    let mut alice = Alice::local();
    let mut bob = Bob::local();
    let alice_exchange = alice.signed_key_exchange();
    let bob_exchange = bob.signed_key_exchange();
    alice.derive_session_key(&bob_exchange).unwrap();
    bob.derive_session_key(&alice_exchange).unwrap();
    (alice, bob)
}

fn encrypted_payload_for_bob(message_id: &str, plaintext: &str) -> (Alice, Bob, Vec<u8>) {
    let (mut alice, bob) = paired_alice_bob();
    let payload = hardening_payload(&mut alice, message_id, plaintext);
    (alice, bob, payload)
}

fn hardening_payload(alice: &mut Alice, message_id: &str, plaintext: &str) -> Vec<u8> {
    let message = alice.encrypt_for_bob(plaintext).expect("encrypt");
    envelope_bytes(&HardeningEnvelope {
        message_id: message_id.to_string(),
        message,
    })
}

fn queue_alice_message(
    storage: &mut Storage,
    alice: &mut Alice,
    message_id: &str,
    plaintext: &str,
) -> OutboxItem {
    let payload = hardening_payload(alice, message_id, plaintext);
    let wire = envelope_of(&payload).unwrap();
    let outbox = OutboxItem {
        message_id: message_id.to_string(),
        recipient_id: "bob".to_string(),
        payload,
        status: OutboxStatus::Pending,
        retry_count: 0,
        created_at_unix_secs: 1,
        last_attempt_unix_secs: None,
    };
    let message = MessageRecord {
        message_id: message_id.to_string(),
        conversation_id: "hardening".to_string(),
        sender_id: "alice".to_string(),
        recipient_id: "bob".to_string(),
        direction: MessageDirection::Sent,
        status: MessageStatus::Sent,
        protocol_counter: Some(wire.message.number),
        ciphertext: wire.message.ciphertext,
        plaintext: Some(plaintext.to_string()),
        created_at_unix_secs: 1,
    };
    let alice_state = alice.export_state().x25519_private_key.to_vec();
    let session_state = alice.session_state().unwrap().root_key.to_vec();

    storage
        .save_state_session_message_and_outbox(
            "alice",
            "alice",
            &alice_state,
            "hardening",
            "bob",
            "alice",
            &session_state,
            &message,
            &outbox,
        );

    outbox
}

fn receive_for_bob(
    storage: &mut Storage,
    bob: &mut Bob,
    payload: &[u8],
) -> Result<HardeningAck, String> {
    let envelope = envelope_of(payload)?;
    if storage
        .messages_for_conversation("hardening")
        .iter()
        .any(|message| message.message_id == envelope.message_id)
    {
        return Ok(HardeningAck {
            message_id: envelope.message_id,
        });
    }

    let plaintext = bob
        .decrypt_from_alice(&envelope.message)
        .map_err(|error| error.message().to_string())?;
    if !storage.accept_message_once(&envelope.message_id) {
        return Ok(HardeningAck {
            message_id: envelope.message_id,
        });
    }
    storage.insert_message(&MessageRecord {
        message_id: envelope.message_id.clone(),
        conversation_id: "hardening".to_string(),
        sender_id: "alice".to_string(),
        recipient_id: "bob".to_string(),
        direction: MessageDirection::Received,
        status: MessageStatus::Received,
        protocol_counter: Some(envelope.message.number),
        ciphertext: envelope.message.ciphertext,
        plaintext: Some(plaintext),
        created_at_unix_secs: 1,
    });

    Ok(HardeningAck {
        message_id: envelope.message_id,
    })
}

fn crdt_message(
    conversation: &str,
    device_id: &str,
    counter: u64,
    message_id: &str,
    author_id: &str,
) -> EventRecord {
    event_record(
        conversation,
        device_id,
        counter,
        ConversationEvent::MessageCreated {
            message_id: message_id.to_string(),
            author_id: author_id.to_string(),
            payload: format!("{message_id} body").into_bytes(),
        },
    )
}

fn crdt_reaction(
    conversation: &str,
    device_id: &str,
    counter: u64,
    message_id: &str,
    reaction: &str,
    actor_id: &str,
) -> EventRecord {
    event_record(
        conversation,
        device_id,
        counter,
        ConversationEvent::ReactionAdded {
            message_id: message_id.to_string(),
            reaction: reaction.to_string(),
            actor_id: actor_id.to_string(),
        },
    )
}

fn crdt_delete(
    conversation: &str,
    device_id: &str,
    counter: u64,
    message_id: &str,
) -> EventRecord {
    event_record(
        conversation,
        device_id,
        counter,
        ConversationEvent::MessageDeleted {
            message_id: message_id.to_string(),
        },
    )
}

fn crdt_read(
    conversation: &str,
    device_id: &str,
    counter: u64,
    read_device_id: &str,
    read_counter: u64,
) -> EventRecord {
    event_record(
        conversation,
        device_id,
        counter,
        ConversationEvent::ReadAdvanced {
            actor_id: "bob".to_string(),
            read_device_id: read_device_id.to_string(),
            read_counter,
        },
    )
}

fn all_events(storage: &Storage, conversation: &str) -> Vec<EventRecord> {
    storage
        .missing_events_for(conversation, &VersionVector::new())
}
