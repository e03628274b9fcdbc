//! Durable delivery: what is encrypted waits in the outbox until its receipt is confirmed,
//! and what comes twice is processed once.

use crate::bytes::{
    append_bytes, be_bytes, copy_bytes, copy_text, hex, hex_encode, to_be_bytes, utf8,
};
use crate::device::{
    CertificateView, DeviceCertificate, DeviceDeliveryEnvelope, DeviceRevocation, DeviceSession,
    DeviceSessionView, RevocationView,
};
use crate::error::CryptoError;
use crate::frames::{DurableAppEnvelope, DurableView};
use crate::history::MAX_STORED;
use crate::party::{Alice, AliceView, Bob, BobView};
use crate::primitives::{aead_overruns, sha256, sha256_digest};
use crate::records::{
    MessageDirection, MessageRecord, MessageRow, MessageStatus, OutboxItem, OutboxRow, OutboxStatus,
};
use crate::session::{is_sent, MessageView, SessionView};
use crate::sorted::{is_selection, views};
use crate::states::{
    is_alice_form, is_bob_form, is_device_session_form, is_session_form,
    is_ratchet_form, store_alice, store_bob, store_device_session, store_ratchet, DeliveryView,
};
use crate::storage::{
    certificate_blobs, certificate_place, revocation_blobs, revocation_place, CertificateRow,
    RevocationRow, Storage, StorageView,
};
use crate::text::joined;
use crate::wire::{decode, decoding, encode, is_form_of, Wire};
use vstd::prelude::*;
use vstd::slice::slice_subrange;

verus! {

/// Why a delivery was not processed.
#[derive(Debug, Clone, PartialEq, Eq, Structural)]
pub enum DeliveryError {
    Malformed,
    Crypto(CryptoError),
}

impl DeliveryError {
    pub open spec fn name(self) -> Seq<char> {
        match self {
            DeliveryError::Malformed => "malformed delivery payload"@,
            DeliveryError::Crypto(error) => error.name(),
        }
    }

    pub fn message(&self) -> (text: &'static str)
        ensures
            text@ == self.name(),
    {
        match self {
            DeliveryError::Malformed => "malformed delivery payload",
            DeliveryError::Crypto(error) => error.message(),
        }
    }
}

/// The id of a payload that is sent at a time.
pub open spec fn payload_id(payload: Seq<u8>, now: u64) -> Seq<char> {
    hex(sha256(be_bytes(now) + payload).take(16))
}

/// The id of a payload that is sent at a time.
pub fn message_id_for(encrypted_payload: &[u8], now: u64) -> (id: String)
    ensures
        id@ == payload_id(encrypted_payload@, now),
{
    let mut hashed: Vec<u8> = Vec::new();
    append_bytes(&mut hashed, to_be_bytes(now).as_slice());
    append_bytes(&mut hashed, encrypted_payload);
    assert(hashed@ =~= be_bytes(now) + encrypted_payload@);
    let digest = sha256_digest(hashed.as_slice());
    assert(digest@.subrange(0, 16) =~= digest@.take(16));
    hex_encode(slice_subrange(digest.as_slice(), 0, 16))
}

/// A message of a conversation between Alice and Bob, as one of them keeps it.
pub open spec fn actor_message(
    message_id: Seq<char>,
    conversation: Seq<char>,
    direction: MessageDirection,
    status: MessageStatus,
    number: u64,
    payload: Seq<u8>,
    text: Seq<char>,
    now: u64,
) -> MessageRow {
    MessageRow {
        message_id,
        conversation_id: conversation,
        sender_id: "alice"@,
        recipient_id: "bob"@,
        direction,
        status,
        protocol_counter: Some(number),
        ciphertext: payload,
        plaintext: Some(text),
        created_at_unix_secs: now,
    }
}

/// The record of a message of a conversation between Alice and Bob.
pub(crate) fn actor_record(
    message_id: String,
    conversation_id: &str,
    direction: MessageDirection,
    status: MessageStatus,
    number: u64,
    payload: &[u8],
    text: &str,
    now: u64,
) -> (record: MessageRecord)
    ensures
        record@ == actor_message(
            message_id@,
            conversation_id@,
            direction,
            status,
            number,
            payload@,
            text@,
            now,
        ),
{
    MessageRecord {
        message_id,
        conversation_id: copy_text(conversation_id),
        sender_id: copy_text("alice"),
        recipient_id: copy_text("bob"),
        direction,
        status,
        protocol_counter: Some(number),
        ciphertext: copy_bytes(payload),
        plaintext: Some(copy_text(text)),
        created_at_unix_secs: now,
    }
}

/// Stores a party, its session and a message of it in one step.
pub fn persist_actor_message(
    storage: &mut Storage,
    local_identity_id: &str,
    local_identity_role: &str,
    local_identity_state: &[u8],
    conversation_id: &str,
    peer_id: &str,
    session_role: &str,
    session_state: &[u8],
    message: &MessageRecord,
    now: u64,
)
    requires
        old(storage).wf(),
    ensures
        final(storage).wf(),
        final(storage)@ == old(storage)@.with_local_identity(
            local_identity_id@,
            local_identity_role@,
            local_identity_state@,
            now,
        ).with_session(
            conversation_id@,
            peer_id@,
            session_role@,
            session_state@,
            now,
        ).with_message(message@),
{
    storage.save_state_session_and_insert_message_at(
        local_identity_id,
        local_identity_role,
        local_identity_state,
        conversation_id,
        peer_id,
        session_role,
        session_state,
        message,
        now,
    );
}

/// The outbox item of a payload that was never tried.
pub open spec fn fresh_item(
    message_id: Seq<char>,
    recipient: Seq<char>,
    payload: Seq<u8>,
    now: u64,
) -> OutboxRow {
    OutboxRow {
        message_id,
        recipient_id: recipient,
        payload,
        status: OutboxStatus::Pending,
        retry_count: 0,
        created_at_unix_secs: now,
        last_attempt_unix_secs: None,
    }
}

fn fresh_outbox_item(message_id: String, recipient: &str, payload: &[u8], now: u64) -> (item:
    OutboxItem)
    ensures
        item@ == fresh_item(message_id@, recipient@, payload@, now),
{
    OutboxItem {
        message_id,
        recipient_id: copy_text(recipient),
        payload: copy_bytes(payload),
        status: OutboxStatus::Pending,
        retry_count: 0,
        created_at_unix_secs: now,
        last_attempt_unix_secs: None,
    }
}

/// A storage after Alice has queued a message: Alice's state, the session, the message and the
/// outbox item.
pub open spec fn with_queued(
    storage: StorageView,
    conversation: Seq<char>,
    state: Seq<u8>,
    session_state: Seq<u8>,
    message_id: Seq<char>,
    number: u64,
    payload: Seq<u8>,
    text: Seq<char>,
    now: u64,
) -> StorageView {
    storage.with_local_identity("alice"@, "alice"@, state, now).with_session(
        conversation,
        "bob"@,
        "alice"@,
        session_state,
        now,
    ).with_message(
        actor_message(
            message_id,
            conversation,
            MessageDirection::Sent,
            MessageStatus::Stored,
            number,
            payload,
            text,
            now,
        ),
    ).with_outbox_item(fresh_item(message_id, "bob"@, payload, now))
}

/// The id of a durable message.
pub open spec fn durable_id(message: MessageView, now: u64) -> Seq<char> {
    "msg-"@ + payload_id(
        <crate::session::RatchetMessage as Wire>::encoded(message),
        now,
    )
}

/// Whether a message is queued as what the session sends next: under its id, in a payload
/// that holds both, with party and session as they are afterwards.
pub open spec fn is_queued_as(
    before: StorageView,
    after: StorageView,
    session: SessionView,
    alice: AliceView,
    conversation: Seq<char>,
    id: Seq<char>,
    text: Seq<char>,
    now: u64,
    message: MessageView,
    payload: Seq<u8>,
    state: Seq<u8>,
    session_state: Seq<u8>,
) -> bool {
    &&& is_sent(session, message, text)
    &&& id == durable_id(message, now)
    &&& is_form_of::<DurableAppEnvelope>(payload, DurableView { message_id: id, message })
    &&& is_alice_form(state, alice)
    &&& is_ratchet_form(session_state, session.send_advanced())
    &&& after == with_queued(
        before,
        conversation,
        state,
        session_state,
        id,
        message.number,
        payload,
        text,
        now,
    )
}

/// Whether a message was queued, whatever its payload and the stored states are.
pub open spec fn was_queued(
    before: StorageView,
    after: StorageView,
    session: SessionView,
    alice: AliceView,
    conversation: Seq<char>,
    id: Seq<char>,
    text: Seq<char>,
    now: u64,
) -> bool {
    exists|message: MessageView, payload: Seq<u8>, state: Seq<u8>, session_state: Seq<u8>|
        #[trigger] is_queued_as(
            before,
            after,
            session,
            alice,
            conversation,
            id,
            text,
            now,
            message,
            payload,
            state,
            session_state,
        )
}

/// Encrypts a message for Bob and queues it: state, session, message and outbox item are
/// stored in one step. Answers with the message's id.
pub fn queue_durable_message(
    storage: &mut Storage,
    alice: &mut Alice,
    conversation_id: &str,
    plaintext: &str,
    now: u64,
) -> (queued: Result<String, CryptoError>)
    requires
        old(storage).wf(),
        old(alice)@.session matches Some(session) ==> session.can_send(),
        !aead_overruns(utf8(plaintext@).len() as int),
    ensures
        final(storage).wf(),
        old(alice)@.session is None ==> {
            &&& queued == Err::<String, CryptoError>(CryptoError::MissingSessionKey)
            &&& final(alice)@ == old(alice)@
            &&& final(storage)@ == old(storage)@
        },
        old(alice)@.session matches Some(session) ==> {
            &&& final(alice)@ == (AliceView {
                session: Some(session.send_advanced()),
                ..old(alice)@
            })
            &&& queued is Err <==> utf8(plaintext@).len() >= 64 * 0xffff_ffff
            &&& queued matches Err(error) ==> error == CryptoError::Encrypt && final(storage)@
                == old(storage)@
        },
        old(alice)@.session is Some && queued is Ok ==> was_queued(
            old(storage)@,
            final(storage)@,
            old(alice)@.session->0,
            final(alice)@,
            conversation_id@,
            queued->Ok_0@,
            plaintext@,
            now,
        ),
{
    let message = match alice.encrypt_for_bob(plaintext) {
        Ok(message) => message,
        Err(error) => {
            return Err(error);
        },
    };
    let ghost sent = message@;
    let number: u64 = message.number;
    let message_bytes = encode(&message);
    let message_id = joined("msg-", message_id_for(message_bytes.as_slice(), now).as_str());
    let envelope = DurableAppEnvelope { message_id: message_id.clone(), message };
    let payload = encode(&envelope);
    let state = store_alice(alice);
    let session_state = match alice.session_state() {
        Some(session) => store_ratchet(&session),
        None => Vec::new(),
    };
    let record = actor_record(
        message_id.clone(),
        conversation_id,
        MessageDirection::Sent,
        MessageStatus::Stored,
        number,
        payload.as_slice(),
        plaintext,
        now,
    );
    let item = fresh_outbox_item(message_id.clone(), "bob", payload.as_slice(), now);
    storage.save_state_session_message_and_outbox_at(
        "alice",
        "alice",
        state.as_slice(),
        conversation_id,
        "bob",
        "alice",
        session_state.as_slice(),
        &record,
        &item,
        now,
    );
    proof {
        assert(is_queued_as(
            old(storage)@,
            storage@,
            old(alice)@.session->0,
            alice@,
            conversation_id@,
            message_id@,
            plaintext@,
            now,
            sent,
            payload@,
            state@,
            session_state@,
        ));
        assert(was_queued(
            old(storage)@,
            storage@,
            old(alice)@.session->0,
            alice@,
            conversation_id@,
            message_id@,
            plaintext@,
            now,
        ));
    }
    Ok(message_id)
}

/// A storage after Bob has processed a delivery.
pub open spec fn with_processed(
    storage: StorageView,
    conversation: Seq<char>,
    state: Seq<u8>,
    session_state: Seq<u8>,
    delivery: DurableView,
    payload: Seq<u8>,
    text: Seq<char>,
    now: u64,
) -> StorageView {
    storage.with_accepted(delivery.message_id, now).with_local_identity(
        "bob"@,
        "bob"@,
        state,
        now,
    ).with_session(conversation, "alice"@, "bob"@, session_state, now).with_message(
        actor_message(
            "bob-"@ + delivery.message_id,
            conversation,
            MessageDirection::Received,
            MessageStatus::Received,
            delivery.message.number,
            payload,
            text,
            now,
        ),
    )
}

/// Whether bytes are Bob and Bob's session as they are stored.
pub open spec fn is_kept_as(bob: BobView, state: Seq<u8>, session_state: Seq<u8>) -> bool {
    &&& is_bob_form(state, bob)
    &&& is_session_form(session_state, bob.session)
}

/// Whether the message of an outbox item can be handed to Bob's session: the message counter
/// can count it, and the cipher answers on it. One that was accepted before is not handed on.
pub open spec fn can_be_taken(storage: StorageView, bob: BobView, payload: Seq<u8>) -> bool {
    decoding::<DurableAppEnvelope>(payload) matches Some(delivery) ==> {
        ||| storage.accepted.contains_key(delivery.message_id)
        ||| {
            &&& bob.session matches Some(session) ==> session.can_receive(delivery.message)
            &&& !aead_overruns(delivery.message.ciphertext.len() - 16)
        }
    }
}

/// Whether the message of an outbox item can be handed to Bob's session.
pub fn can_take(storage: &Storage, bob: &Bob, item: &OutboxItem) -> (answer: bool)
    requires
        storage.wf(),
    ensures
        answer == can_be_taken(storage@, bob@, item@.payload),
{
    match decode::<DurableAppEnvelope>(item.payload.as_slice()) {
        Some(delivery) => storage.accepted.contains_key(&delivery.message_id) || bob.can_decrypt(
            &delivery.message,
        ),
        None => true,
    }
}

/// The contents of an answer to a delivery.
pub open spec fn acknowledged(ack: Result<String, DeliveryError>) -> Result<
    Seq<char>,
    DeliveryError,
> {
    match ack {
        Ok(id) => Ok(id@),
        Err(error) => Err(error),
    }
}

/// Whether the payload of an outbox item was handed to Bob and answered with `ack`: what was
/// accepted before is only confirmed, anything else counts as accepted and is read, and what
/// was read is kept with Bob.
pub open spec fn was_handed_over(
    before: StorageView,
    after: StorageView,
    bob: BobView,
    bob_after: BobView,
    conversation: Seq<char>,
    payload: Seq<u8>,
    now: u64,
    ack: Result<Seq<char>, DeliveryError>,
) -> bool {
    match decoding::<DurableAppEnvelope>(payload) {
        None => {
            &&& ack == Err::<Seq<char>, DeliveryError>(DeliveryError::Malformed)
            &&& after == before
            &&& bob_after == bob
        },
        Some(delivery) => if before.accepted.contains_key(delivery.message_id) {
            &&& ack == Ok::<Seq<char>, DeliveryError>(delivery.message_id)
            &&& after == before
            &&& bob_after == bob
        } else {
            &&& bob_after == bob.reading(delivery.message).0
            &&& match bob.reading(delivery.message).1 {
                Err(error) => {
                    &&& ack == Err::<Seq<char>, DeliveryError>(DeliveryError::Crypto(error))
                    &&& after == before.with_accepted(delivery.message_id, now)
                },
                Ok(text) => {
                    &&& ack == Ok::<Seq<char>, DeliveryError>(delivery.message_id)
                    &&& exists|state: Seq<u8>, session_state: Seq<u8>|
                        {
                            &&& #[trigger] is_kept_as(bob_after, state, session_state)
                            &&& after == with_processed(
                                before,
                                conversation,
                                state,
                                session_state,
                                delivery,
                                payload,
                                text,
                                now,
                            )
                        }
                },
            }
        },
    }
}

/// Whether one more attempt to deliver an outbox item was counted, the item was handed to
/// Bob, and its receipt, if Bob confirmed it, was noted.
pub open spec fn was_retried(
    before: StorageView,
    after: StorageView,
    bob: BobView,
    bob_after: BobView,
    conversation: Seq<char>,
    item: OutboxRow,
    now: u64,
    ack: Result<Seq<char>, DeliveryError>,
) -> bool {
    exists|handed: StorageView|
        {
            &&& #[trigger] was_handed_over(
                before.with_outbox_attempt(item.message_id, now),
                handed,
                bob,
                bob_after,
                conversation,
                item.payload,
                now,
                ack,
            )
            &&& after == match ack {
                Ok(id) => handed.with_outbox_delivered(id, now),
                Err(_) => handed,
            }
        }
}

/// Delivers an outbox item to Bob. What was accepted before is confirmed again and not
/// processed twice. Answers with the id to confirm.
pub fn deliver_outbox_item_to_bob(
    storage: &mut Storage,
    bob: &mut Bob,
    conversation_id: &str,
    item: &OutboxItem,
    now: u64,
) -> (ack: Result<String, DeliveryError>)
    requires
        old(storage).wf(),
        can_be_taken(old(storage)@, old(bob)@, item@.payload),
    ensures
        final(storage).wf(),
        was_handed_over(
            old(storage)@,
            final(storage)@,
            old(bob)@,
            final(bob)@,
            conversation_id@,
            item@.payload,
            now,
            acknowledged(ack),
        ),
{
    let envelope = match decode::<DurableAppEnvelope>(item.payload.as_slice()) {
        Some(envelope) => envelope,
        None => {
            return Err(DeliveryError::Malformed);
        },
    };
    if !storage.accept_message_once_at(envelope.message_id.as_str(), now) {
        return Ok(envelope.message_id);
    }
    let plaintext = match bob.decrypt_from_alice(&envelope.message) {
        Ok(plaintext) => plaintext,
        Err(error) => {
            return Err(DeliveryError::Crypto(error));
        },
    };
    let state = store_bob(bob);
    let session_state = match bob.session_state() {
        Some(session) => store_ratchet(&session),
        None => Vec::new(),
    };
    let record = actor_record(
        joined("bob-", envelope.message_id.as_str()),
        conversation_id,
        MessageDirection::Received,
        MessageStatus::Received,
        envelope.message.number,
        item.payload.as_slice(),
        plaintext.as_str(),
        now,
    );
    persist_actor_message(
        storage,
        "bob",
        "bob",
        state.as_slice(),
        conversation_id,
        "alice",
        "bob",
        session_state.as_slice(),
        &record,
        now,
    );
    assert(is_kept_as(bob@, state@, session_state@));
    assert(storage@ == with_processed(
        old(storage)@,
        conversation_id@,
        state@,
        session_state@,
        envelope@,
        item@.payload,
        plaintext@,
        now,
    ));
    Ok(envelope.message_id)
}

/// The receipt of an outbox item was confirmed.
pub fn handle_ack(storage: &mut Storage, message_id: &str, now: u64)
    requires
        old(storage).wf(),
    ensures
        final(storage).wf(),
        final(storage)@ == old(storage)@.with_outbox_delivered(message_id@, now),
{
    storage.mark_outbox_delivered_at(message_id, now);
}

/// Tries to deliver an outbox item again: counts the attempt, delivers, and notes the
/// confirmation.
pub fn retry_outbox_item(
    storage: &mut Storage,
    bob: &mut Bob,
    conversation_id: &str,
    item: &OutboxItem,
    now: u64,
) -> (ack: Result<String, DeliveryError>)
    requires
        old(storage).wf(),
        old(storage)@.outbox.contains_key(item@.message_id) ==> old(
            storage,
        )@.outbox[item@.message_id].retry_count != MAX_STORED,
        can_be_taken(old(storage)@, old(bob)@, item@.payload),
    ensures
        final(storage).wf(),
        was_retried(
            old(storage)@,
            final(storage)@,
            old(bob)@,
            final(bob)@,
            conversation_id@,
            item@,
            now,
            acknowledged(ack),
        ),
{
    let ghost bob_before = bob@;
    storage.record_outbox_attempt_at(item.message_id.as_str(), now);
    let ghost counted = storage@;
    let ack = deliver_outbox_item_to_bob(storage, bob, conversation_id, item, now);
    assert(was_handed_over(
        counted,
        storage@,
        bob_before,
        bob@,
        conversation_id@,
        item@.payload,
        now,
        acknowledged(ack),
    ));
    match ack {
        Ok(id) => {
            handle_ack(storage, id.as_str(), now);
            Ok(id)
        },
        Err(error) => Err(error),
    }
}

/// The id of a delivery to a device: one for each message and device.
pub open spec fn delivery_id(logical_message_id: Seq<char>, device: Seq<char>) -> Seq<char> {
    logical_message_id + ":"@ + device
}

/// The id of a delivery to a device in the outbox.
pub fn delivery_outbox_id(envelope: &DeviceDeliveryEnvelope) -> (id: String)
    ensures
        id@ == delivery_id(envelope@.logical_message_id, envelope@.recipient_device_id),
{
    let start = joined(envelope.logical_message_id.as_str(), ":");
    joined(start.as_str(), envelope.recipient_device_id.as_str())
}

/// Encrypts a message for a device and queues the delivery: session and outbox item are
/// stored in one step.
pub fn encrypt_and_queue_device_delivery(
    storage: &mut Storage,
    session: &mut DeviceSession,
    logical_message_id: &str,
    plaintext: &str,
    now: u64,
) -> (queued: Result<DeviceDeliveryEnvelope, CryptoError>)
    requires
        old(storage).wf(),
        old(session)@.session.can_send(),
        !aead_overruns(utf8(plaintext@).len() as int),
    ensures
        final(storage).wf(),
        final(session)@ == (DeviceSessionView {
            session: old(session)@.session.send_advanced(),
            ..old(session)@
        }),
        queued is Err <==> utf8(plaintext@).len() >= 64 * 0xffff_ffff,
        queued matches Err(error) ==> error == CryptoError::Encrypt && final(storage)@ == old(
            storage,
        )@,
        queued matches Ok(envelope) ==> {
            &&& envelope@.logical_message_id == logical_message_id@
            &&& envelope@.sender_device_id == old(session)@.local_device_id
            &&& envelope@.recipient_device_id == old(session)@.remote_device_id
            &&& is_sent(old(session)@.session, envelope@.message, plaintext@)
            &&& exists|state: Seq<u8>, payload: Seq<u8>|
                {
                    &&& is_device_session_form(state, final(session)@)
                    &&& is_form_of::<DeviceDeliveryEnvelope>(payload, envelope@)
                    &&& final(storage)@ == #[trigger] with_device_delivery(
                        old(storage)@,
                        final(session)@,
                        state,
                        envelope@,
                        payload,
                        now,
                    )
                }
        },
{
    let envelope = match session.encrypt(logical_message_id, plaintext) {
        Ok(envelope) => envelope,
        Err(error) => {
            return Err(error);
        },
    };
    let payload = encode(&envelope);
    let item = fresh_outbox_item(
        delivery_outbox_id(&envelope),
        envelope.recipient_device_id.as_str(),
        payload.as_slice(),
        now,
    );
    let state = store_device_session(session);
    storage.save_device_pair_session_and_outbox_at(
        session.local_device_id(),
        session.remote_device_id(),
        state.as_slice(),
        &item,
        now,
    );
    assert(storage@ == with_device_delivery(
        old(storage)@,
        session@,
        state@,
        envelope@,
        payload@,
        now,
    ));
    Ok(envelope)
}

/// A storage after a delivery to a device was queued.
pub open spec fn with_device_delivery(
    storage: StorageView,
    session: DeviceSessionView,
    state: Seq<u8>,
    envelope: DeliveryView,
    payload: Seq<u8>,
    now: u64,
) -> StorageView {
    storage.with_pair_session(
        session.local_device_id,
        session.remote_device_id,
        state,
        now,
    ).with_outbox_item(
        fresh_item(
            delivery_id(envelope.logical_message_id, envelope.recipient_device_id),
            envelope.recipient_device_id,
            payload,
            now,
        ),
    )
}

/// What binary forms stand for, all of them or none.
pub open spec fn decoded_all<T: Wire>(blobs: Seq<Seq<u8>>) -> Option<Seq<T::V>>
    decreases blobs.len(),
{
    if blobs.len() == 0 {
        Some(Seq::empty())
    } else {
        match (decoded_all::<T>(blobs.drop_last()), decoding::<T>(blobs.last())) {
            (Some(before), Some(last)) => Some(before.push(last)),
            _ => None,
        }
    }
}

proof fn lemma_decoded_all_fails<T: Wire>(blobs: Seq<Seq<u8>>, end: int)
    requires
        0 <= end <= blobs.len(),
        decoded_all::<T>(blobs.take(end)) is None,
    ensures
        decoded_all::<T>(blobs) is None,
    decreases blobs.len() - end,
{
    if end == blobs.len() {
        assert(blobs.take(end) =~= blobs);
    } else {
        assert(blobs.take(end + 1).drop_last() =~= blobs.take(end));
        lemma_decoded_all_fails::<T>(blobs, end + 1);
    }
}

/// Reads all of the binary forms, or none where one cannot be read.
pub fn decode_all<T: Wire>(blobs: &Vec<Vec<u8>>) -> (values: Option<Vec<T>>)
    ensures
        match values {
            Some(values) => decoded_all::<T>(views(blobs@)) == Some(views(values@)),
            None => decoded_all::<T>(views(blobs@)) is None,
        },
{
    let mut values: Vec<T> = Vec::new();
    let mut i: usize = 0;
    assert(views(values@) =~= Seq::<T::V>::empty());
    while i < blobs.len()
        invariant
            i <= blobs@.len(),
            decoded_all::<T>(views(blobs@).take(i as int)) == Some(views(values@)),
        decreases blobs@.len() - i,
    {
        let ghost so_far = views(blobs@).take(i + 1);
        assert(so_far.drop_last() =~= views(blobs@).take(i as int));
        assert(so_far.last() == blobs@[i as int]@);
        match decode::<T>(blobs[i].as_slice()) {
            Some(value) => {
                let ghost before = values@;
                values.push(value);
                assert(views(values@) =~= views(before).push(value@));
            },
            None => {
                proof {
                    lemma_decoded_all_fails::<T>(views(blobs@), i + 1);
                }
                return None;
            },
        }
        i += 1;
    }
    assert(views(blobs@).take(i as int) =~= views(blobs@));
    Some(values)
}

/// Whether a storage holds these certificates of an account, by device; `None` where one of
/// them cannot be read.
pub open spec fn holds_certificates(
    storage: StorageView,
    account: Seq<char>,
    certificates: Option<Seq<CertificateView>>,
) -> bool {
    exists|rows: Seq<CertificateRow>|
        is_selection::<(Seq<char>, Seq<char>), CertificateRow, String>(
            rows,
            storage.certificates,
            certificate_place(account),
        ) && decoded_all::<DeviceCertificate>(#[trigger] certificate_blobs(rows)) == certificates
}

/// Whether a storage holds these revocations of an account, by device; `None` where one of
/// them cannot be read.
pub open spec fn holds_revocations(
    storage: StorageView,
    account: Seq<char>,
    revocations: Option<Seq<RevocationView>>,
) -> bool {
    exists|rows: Seq<RevocationRow>|
        is_selection::<(Seq<char>, Seq<char>), RevocationRow, String>(
            rows,
            storage.revocations,
            revocation_place(account),
        ) && decoded_all::<DeviceRevocation>(#[trigger] revocation_blobs(rows)) == revocations
}

/// The certificates of an account, by device.
pub fn load_device_certificates(storage: &Storage, account_id: &str) -> (certificates: Option<
    Vec<DeviceCertificate>,
>)
    requires
        storage.wf(),
    ensures
        holds_certificates(
            storage@,
            account_id@,
            match certificates {
                Some(certificates) => Some(views(certificates@)),
                None => None,
            },
        ),
{
    decode_all(&storage.device_certificates_for_account(account_id))
}

/// The revocations of an account, by device.
pub fn load_device_revocations(storage: &Storage, account_id: &str) -> (revocations: Option<
    Vec<DeviceRevocation>,
>)
    requires
        storage.wf(),
    ensures
        holds_revocations(
            storage@,
            account_id@,
            match revocations {
                Some(revocations) => Some(views(revocations@)),
                None => None,
            },
        ),
{
    decode_all(&storage.device_revocations_for_account(account_id))
}

/// A queued message waits until its receipt is confirmed, and attempts do not end the
/// wait.
pub proof fn law_queued_message_waits(
    storage: StorageView,
    conversation: Seq<char>,
    state: Seq<u8>,
    session_state: Seq<u8>,
    message_id: Seq<char>,
    number: u64,
    payload: Seq<u8>,
    text: Seq<char>,
    now: u64,
    later: u64,
)
    requires
        !storage.outbox.contains_key(message_id),
    ensures
        ({
            let queued = with_queued(
                storage,
                conversation,
                state,
                session_state,
                message_id,
                number,
                payload,
                text,
                now,
            );
            let tried = queued.with_outbox_attempt(message_id, later);
            let confirmed = tried.with_outbox_delivered(message_id, later);
            &&& queued.outbox[message_id].status == OutboxStatus::Pending
            &&& tried.outbox[message_id].status == OutboxStatus::Pending
            &&& tried.outbox[message_id].payload == payload
            &&& tried.outbox[message_id].retry_count == 1
            &&& confirmed.outbox[message_id].status == OutboxStatus::Delivered
        }),
{
}

/// A delivery that was processed counts as accepted, so that it is not processed again.
pub proof fn law_processed_delivery_is_accepted(
    storage: StorageView,
    conversation: Seq<char>,
    state: Seq<u8>,
    session_state: Seq<u8>,
    delivery: DurableView,
    payload: Seq<u8>,
    text: Seq<char>,
    now: u64,
)
    ensures
        with_processed(
            storage,
            conversation,
            state,
            session_state,
            delivery,
            payload,
            text,
            now,
        ).accepted.contains_key(delivery.message_id),
{
}

} // verus!
