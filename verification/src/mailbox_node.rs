//! A mailbox node, which holds encrypted envelopes for recipients that are away, and its
//! two clients: the one that deposits and the one that fetches.

use crate::bytes::{copy_bytes, copy_text, hex, hex_encode, utf8};
use crate::delivery::{message_id_for, payload_id, DeliveryError};
use crate::error::CryptoError;
use crate::identity::{BundleView, PreKeyBundle};
use crate::mailbox_storage::{
    envelopes_of, fetch_place, EnvelopeOrder, MailboxStorage, MailboxView, StoredEnvelopeRow,
};
use crate::party::{
    is_bundle_of, opened_with, Alice, AliceView, Bob, BobView, InitialMessage, InitialView,
};
use crate::primitives::{aead_overruns, sha256, sha256_digest, x25519_public};
use crate::records::{
    EnvelopeRow, MailboxEnvelopeRecord, MessageDirection, MessageRecord, MessageRow, MessageStatus,
    OutboxItem, OutboxRow, OutboxStatus,
};
use crate::relay::{has_opened, is_initial_for, law_first_message_is_read};
use crate::session::is_sent;
use crate::sorted::{is_selection, views};
use crate::states::{
    is_alice_form, is_bob_form, is_ratchet_form, store_alice, store_bob, store_ratchet,
};
use crate::storage::{Storage, StorageView};
use crate::text::joined;
use crate::wire::{decode, decoding, encode, is_form_of};
use vstd::prelude::*;
use vstd::slice::slice_subrange;

verus! {

pub const MAILBOX_PROTOCOL: &'static str = "/ciphermesh/mailbox/3d/1.0.0";

/// How long a deposited envelope is held.
pub const MAILBOX_ENVELOPE_TTL_SECS: u64 = 300;

/// How many envelopes may wait at a node.
pub const MAILBOX_MAX_ENVELOPES: usize = 64;

/// An encrypted message for a recipient that may be away.
#[derive(Debug, Clone, PartialEq, Eq)]
pub struct OfflineEnvelope {
    pub recipient_token: String,
    pub message_id: String,
    pub encrypted_payload: Vec<u8>,
    pub expires_at_unix_secs: Option<u64>,
}

/// The contents of an `OfflineEnvelope`.
#[verifier::ext_equal]
pub struct OfflineView {
    pub recipient_token: Seq<char>,
    pub message_id: Seq<char>,
    pub encrypted_payload: Seq<u8>,
    pub expires_at_unix_secs: Option<u64>,
}

impl View for OfflineEnvelope {
    type V = OfflineView;

    open spec fn view(&self) -> OfflineView {
        OfflineView {
            recipient_token: self.recipient_token@,
            message_id: self.message_id@,
            encrypted_payload: self.encrypted_payload@,
            expires_at_unix_secs: self.expires_at_unix_secs,
        }
    }
}

/// What a client asks of a mailbox node.
#[derive(Debug, Clone, PartialEq, Eq)]
pub enum MailboxRequest {
    Deposit(OfflineEnvelope),
    Fetch { recipient_token: String },
    Acknowledge { message_id: String },
}

#[verifier::ext_equal]
pub enum MailboxRequestView {
    Deposit(OfflineView),
    Fetch { recipient_token: Seq<char> },
    Acknowledge { message_id: Seq<char> },
}

impl View for MailboxRequest {
    type V = MailboxRequestView;

    open spec fn view(&self) -> MailboxRequestView {
        match *self {
            MailboxRequest::Deposit(envelope) => MailboxRequestView::Deposit(envelope@),
            MailboxRequest::Fetch { recipient_token } => MailboxRequestView::Fetch {
                recipient_token: recipient_token@,
            },
            MailboxRequest::Acknowledge { message_id } => MailboxRequestView::Acknowledge {
                message_id: message_id@,
            },
        }
    }
}

/// What a mailbox node answers.
#[derive(Debug, Clone, PartialEq, Eq)]
pub enum MailboxResponse {
    Deposited { message_id: String },
    Pending { envelopes: Vec<OfflineEnvelope> },
    Acknowledged { message_id: String },
    Error(String),
}

#[verifier::ext_equal]
pub enum MailboxResponseView {
    Deposited { message_id: Seq<char> },
    Pending { envelopes: Seq<OfflineView> },
    Acknowledged { message_id: Seq<char> },
    Error(Seq<char>),
}

impl View for MailboxResponse {
    type V = MailboxResponseView;

    open spec fn view(&self) -> MailboxResponseView {
        match *self {
            MailboxResponse::Deposited { message_id } => MailboxResponseView::Deposited {
                message_id: message_id@,
            },
            MailboxResponse::Pending { envelopes } => MailboxResponseView::Pending {
                envelopes: views(envelopes@),
            },
            MailboxResponse::Acknowledged { message_id } => MailboxResponseView::Acknowledged {
                message_id: message_id@,
            },
            MailboxResponse::Error(error) => MailboxResponseView::Error(error@),
        }
    }
}

/// An envelope as the node keeps it.
pub open spec fn kept_envelope(envelope: OfflineView, now: u64) -> EnvelopeRow {
    EnvelopeRow {
        message_id: envelope.message_id,
        recipient_token: envelope.recipient_token,
        encrypted_payload: envelope.encrypted_payload,
        created_at_unix_secs: now,
        expires_at_unix_secs: envelope.expires_at_unix_secs,
    }
}

/// An envelope as the node hands it out.
pub open spec fn handed_out(row: EnvelopeRow) -> OfflineView {
    OfflineView {
        recipient_token: row.recipient_token,
        message_id: row.message_id,
        encrypted_payload: row.encrypted_payload,
        expires_at_unix_secs: row.expires_at_unix_secs,
    }
}

pub open spec fn all_handed_out(rows: Seq<EnvelopeRow>) -> Seq<OfflineView> {
    rows.map_values(|row: EnvelopeRow| handed_out(row))
}

/// The mailbox after a request.
pub open spec fn mailbox_after(
    mailbox: MailboxView,
    request: MailboxRequestView,
    now: u64,
) -> MailboxView {
    match request {
        MailboxRequestView::Deposit(envelope) => mailbox.with_deposit(
            kept_envelope(envelope, now),
            now,
        ),
        MailboxRequestView::Fetch { .. } => mailbox.aged(now),
        MailboxRequestView::Acknowledge { message_id } => mailbox.with_acknowledged(
            message_id,
            now,
        ),
    }
}

/// Whether `response` is the answer to a request.
pub open spec fn is_mailbox_answer(
    mailbox: MailboxView,
    request: MailboxRequestView,
    response: MailboxResponseView,
    now: u64,
) -> bool {
    match request {
        MailboxRequestView::Deposit(envelope) => response == if mailbox.refuses(
            kept_envelope(envelope, now),
            now,
        ) {
            MailboxResponseView::Error("mailbox storage is full"@)
        } else {
            MailboxResponseView::Deposited { message_id: envelope.message_id }
        },
        MailboxRequestView::Fetch { recipient_token } => exists|rows: Seq<StoredEnvelopeRow>|
            is_selection::<Seq<char>, StoredEnvelopeRow, EnvelopeOrder>(
                rows,
                mailbox.aged(now).envelopes,
                fetch_place(recipient_token, now),
            ) && response == (MailboxResponseView::Pending {
                envelopes: all_handed_out(#[trigger] envelopes_of(rows)),
            }),
        MailboxRequestView::Acknowledge { message_id } => response
            == MailboxResponseView::Acknowledged { message_id },
    }
}

/// Answers a request of a client.
pub fn answer_mailbox(mailbox: &mut MailboxStorage, request: MailboxRequest, now: u64) -> (response:
    MailboxResponse)
    requires
        old(mailbox).wf(),
    ensures
        final(mailbox).wf(),
        final(mailbox)@ == mailbox_after(old(mailbox)@, request@, now),
        is_mailbox_answer(old(mailbox)@, request@, response@, now),
{
    match request {
        MailboxRequest::Deposit(envelope) => {
            let message_id = envelope.message_id.clone();
            let record = MailboxEnvelopeRecord {
                message_id: envelope.message_id,
                recipient_token: envelope.recipient_token,
                encrypted_payload: envelope.encrypted_payload,
                created_at_unix_secs: now,
                expires_at_unix_secs: envelope.expires_at_unix_secs,
            };
            match mailbox.deposit(&record, now) {
                Ok(_) => MailboxResponse::Deposited { message_id },
                Err(error) => MailboxResponse::Error(copy_text(error.message())),
            }
        },
        MailboxRequest::Fetch { recipient_token } => {
            let records = mailbox.fetch_pending(recipient_token.as_str(), now);
            let mut envelopes: Vec<OfflineEnvelope> = Vec::new();
            let mut i: usize = 0;
            while i < records.len()
                invariant
                    i <= records@.len(),
                    envelopes@.len() == i,
                    forall|j: int|
                        0 <= j < i ==> (#[trigger] envelopes@[j])@ == handed_out(records@[j]@),
                decreases records@.len() - i,
            {
                let record = &records[i];
                envelopes.push(
                    OfflineEnvelope {
                        recipient_token: record.recipient_token.clone(),
                        message_id: record.message_id.clone(),
                        encrypted_payload: copy_bytes(record.encrypted_payload.as_slice()),
                        expires_at_unix_secs: record.expires_at_unix_secs,
                    },
                );
                i += 1;
            }
            assert(views(envelopes@) =~= all_handed_out(views(records@)));
            MailboxResponse::Pending { envelopes }
        },
        MailboxRequest::Acknowledge { message_id } => {
            mailbox.acknowledge_retrieval(message_id.as_str(), now);
            MailboxResponse::Acknowledged { message_id }
        },
    }
}

/// The name under which a mailbox holds envelopes for the owner of an identity key.
pub open spec fn token_of(identity: Seq<u8>) -> Seq<char> {
    hex(sha256(identity).take(16))
}

/// The name under which a mailbox holds envelopes for the owner of a bundle.
pub fn recipient_token_for_bundle(bundle: &PreKeyBundle) -> (token: String)
    ensures
        token@ == token_of(bundle@.identity_public_key),
{
    let digest = sha256_digest(bundle.identity_public_key.as_slice());
    assert(digest@.subrange(0, 16) =~= digest@.take(16));
    hex_encode(slice_subrange(digest.as_slice(), 0, 16))
}

/// The conversation of a mailbox recipient.
pub open spec fn mailbox_conversation(token: Seq<char>) -> Seq<char> {
    "mailbox-"@ + token
}

/// A storage after a first message was queued for the mailbox.
pub open spec fn with_mailbox_message(
    storage: StorageView,
    token: Seq<char>,
    state: Seq<u8>,
    session_state: Seq<u8>,
    id: Seq<char>,
    number: u64,
    payload: Seq<u8>,
    text: Seq<char>,
    now: u64,
) -> StorageView {
    storage.with_local_identity("alice-mailbox"@, "alice"@, state, now).with_session(
        mailbox_conversation(token),
        token,
        "alice"@,
        session_state,
        now,
    ).with_message(
        MessageRow {
            message_id: id,
            conversation_id: mailbox_conversation(token),
            sender_id: "alice"@,
            recipient_id: token,
            direction: MessageDirection::Sent,
            status: MessageStatus::Stored,
            protocol_counter: Some(number),
            ciphertext: payload,
            plaintext: Some(text),
            created_at_unix_secs: now,
        },
    ).with_outbox_item(
        OutboxRow {
            message_id: id,
            recipient_id: token,
            payload,
            status: OutboxStatus::Pending,
            retry_count: 0,
            created_at_unix_secs: now,
            last_attempt_unix_secs: None,
        },
    )
}

/// Whether a first message was queued for the mailbox and written into `envelope`.
pub open spec fn is_deposit(
    before: StorageView,
    after: StorageView,
    bundle: BundleView,
    alice: AliceView,
    envelope: OfflineView,
    text: Seq<char>,
    now: u64,
    initial: InitialView,
    state: Seq<u8>,
    session_state: Seq<u8>,
) -> bool {
    let session = alice.session->0;
    let token = token_of(bundle.identity_public_key);
    &&& is_sent(opened_with(bundle, session.dh_private), initial.message, text)
    &&& initial.alice_initial_public_key == x25519_public(session.dh_private)
    &&& initial.one_time_prekey_id == bundle.one_time_prekey_id
    &&& is_form_of::<InitialMessage>(envelope.encrypted_payload, initial)
    &&& envelope.recipient_token == token
    &&& envelope.message_id == payload_id(envelope.encrypted_payload, now)
    &&& envelope.expires_at_unix_secs == Some((now + MAILBOX_ENVELOPE_TTL_SECS) as u64)
    &&& is_alice_form(state, alice)
    &&& is_ratchet_form(session_state, session)
    &&& after == with_mailbox_message(
        before,
        token,
        state,
        session_state,
        envelope.message_id,
        initial.message.number,
        envelope.encrypted_payload,
        text,
        now,
    )
}

/// Whether a first message was queued for the mailbox, whatever its session and the stored
/// states are.
pub open spec fn was_deposited(
    before: StorageView,
    after: StorageView,
    bundle: BundleView,
    alice: AliceView,
    envelope: OfflineView,
    text: Seq<char>,
    now: u64,
) -> bool {
    exists|initial: InitialView, state: Seq<u8>, session_state: Seq<u8>|
        #[trigger] is_deposit(
            before,
            after,
            bundle,
            alice,
            envelope,
            text,
            now,
            initial,
            state,
            session_state,
        )
}

/// Encrypts a first message with a bundle, queues it in the outbox and writes it into an
/// envelope for the mailbox. The outbox item waits until the recipient has confirmed it,
/// not only the mailbox.
pub fn prepare_mailbox_deposit(
    storage: &mut Storage,
    alice: &mut Alice,
    bundle: &PreKeyBundle,
    message: &str,
    now: u64,
) -> (prepared: Result<OfflineEnvelope, CryptoError>)
    requires
        old(storage).wf(),
        !aead_overruns(utf8(message@).len() as int),
        now + MAILBOX_ENVELOPE_TTL_SECS <= u64::MAX,
    ensures
        final(storage).wf(),
        !bundle@.is_signed() ==> {
            &&& prepared == Err::<OfflineEnvelope, CryptoError>(CryptoError::SignatureVerification)
            &&& final(alice)@ == old(alice)@
            &&& final(storage)@ == old(storage)@
        },
        bundle@.is_signed() ==> {
            &&& prepared is Err <==> utf8(message@).len() >= 64 * 0xffff_ffff
            &&& prepared matches Err(error) ==> error == CryptoError::Encrypt && final(storage)@
                == old(storage)@
            &&& has_opened(old(alice)@, final(alice)@, bundle@)
        },
        bundle@.is_signed() && prepared is Ok ==> was_deposited(
            old(storage)@,
            final(storage)@,
            bundle@,
            final(alice)@,
            prepared->Ok_0@,
            message@,
            now,
        ),
{
    let initial = match alice.encrypt_initial_message(bundle, message) {
        Ok(initial) => initial,
        Err(error) => {
            return Err(error);
        },
    };
    let token = recipient_token_for_bundle(bundle);
    let payload = encode(&initial);
    let message_id = message_id_for(payload.as_slice(), now);
    let conversation_id = joined("mailbox-", token.as_str());
    let envelope = OfflineEnvelope {
        recipient_token: token.clone(),
        message_id: message_id.clone(),
        encrypted_payload: copy_bytes(payload.as_slice()),
        expires_at_unix_secs: Some(now + MAILBOX_ENVELOPE_TTL_SECS),
    };
    let item = OutboxItem {
        message_id: message_id.clone(),
        recipient_id: token.clone(),
        payload: copy_bytes(payload.as_slice()),
        status: OutboxStatus::Pending,
        retry_count: 0,
        created_at_unix_secs: now,
        last_attempt_unix_secs: None,
    };
    let record = MessageRecord {
        message_id: message_id.clone(),
        conversation_id: conversation_id.clone(),
        sender_id: copy_text("alice"),
        recipient_id: token.clone(),
        direction: MessageDirection::Sent,
        status: MessageStatus::Stored,
        protocol_counter: Some(initial.message.number),
        ciphertext: copy_bytes(payload.as_slice()),
        plaintext: Some(copy_text(message)),
        created_at_unix_secs: now,
    };
    let state = store_alice(alice);
    let session_state = match alice.session_state() {
        Some(session) => store_ratchet(&session),
        None => Vec::new(),
    };
    storage.save_state_session_message_and_outbox_at(
        "alice-mailbox",
        "alice",
        state.as_slice(),
        conversation_id.as_str(),
        token.as_str(),
        "alice",
        session_state.as_slice(),
        &record,
        &item,
        now,
    );
    proof {
        let sent = initial@;
        assert(is_deposit(
            old(storage)@,
            storage@,
            bundle@,
            alice@,
            envelope@,
            message@,
            now,
            sent,
            state@,
            session_state@,
        ));
        assert(was_deposited(
            old(storage)@,
            storage@,
            bundle@,
            alice@,
            envelope@,
            message@,
            now,
        ));
    }
    Ok(envelope)
}

/// A message from the mailbox in the history.
pub open spec fn mailbox_row(
    envelope: OfflineView,
    token: Seq<char>,
    number: u64,
    text: Seq<char>,
    now: u64,
) -> MessageRow {
    MessageRow {
        message_id: envelope.message_id,
        conversation_id: mailbox_conversation(token),
        sender_id: "alice"@,
        recipient_id: "bob"@,
        direction: MessageDirection::Received,
        status: MessageStatus::Received,
        protocol_counter: Some(number),
        ciphertext: envelope.encrypted_payload,
        plaintext: Some(text),
        created_at_unix_secs: now,
    }
}

/// Processes an envelope from the mailbox, unless it was accepted before. Answers with the
/// text of a new message; in every case but an error its retrieval is to be confirmed.
pub fn receive_offline_envelope(
    storage: &mut Storage,
    bob: &mut Bob,
    recipient_token: &str,
    envelope: &OfflineEnvelope,
    now: u64,
) -> (read: Result<Option<String>, DeliveryError>)
    requires
        old(storage).wf(),
        decoding::<InitialMessage>(envelope@.encrypted_payload) matches Some(initial)
            ==> !aead_overruns(initial.message.ciphertext.len() - 16),
    ensures
        final(storage).wf(),
        if old(storage)@.accepted.contains_key(envelope@.message_id) {
            &&& read == Ok::<Option<String>, DeliveryError>(None)
            &&& final(storage)@ == old(storage)@
            &&& final(bob)@ == old(bob)@
        } else {
            let accepted = old(storage)@.with_accepted(envelope@.message_id, now);
            match decoding::<InitialMessage>(envelope@.encrypted_payload) {
                None => {
                    &&& read == Err::<Option<String>, DeliveryError>(DeliveryError::Malformed)
                    &&& final(storage)@ == accepted
                    &&& final(bob)@ == old(bob)@
                },
                Some(initial) => {
                    let (after, text) = old(bob)@.receiving_initial(initial);
                    &&& final(bob)@ == after
                    &&& match text {
                        Err(error) => {
                            &&& read == Err::<Option<String>, DeliveryError>(
                                DeliveryError::Crypto(error),
                            )
                            &&& final(storage)@ == accepted
                        },
                        Ok(text) => {
                            &&& read matches Ok(Some(shown)) && shown@ == text
                            &&& exists|state: Seq<u8>| #[trigger]
                                is_bob_form(state, after) && final(storage)@
                                    == accepted.with_message(
                                    mailbox_row(
                                        envelope@,
                                        recipient_token@,
                                        initial.message.number,
                                        text,
                                        now,
                                    ),
                                ).with_local_identity("bob-mailbox"@, "bob"@, state, now)
                        },
                    }
                },
            }
        },
{
    if !storage.accept_message_once_at(envelope.message_id.as_str(), now) {
        return Ok(None);
    }
    let initial = match decode::<InitialMessage>(envelope.encrypted_payload.as_slice()) {
        Some(initial) => initial,
        None => {
            return Err(DeliveryError::Malformed);
        },
    };
    let plaintext = match bob.decrypt_initial_message(&initial) {
        Ok(plaintext) => plaintext,
        Err(error) => {
            return Err(DeliveryError::Crypto(error));
        },
    };
    storage.insert_message(
        &MessageRecord {
            message_id: envelope.message_id.clone(),
            conversation_id: joined("mailbox-", recipient_token),
            sender_id: copy_text("alice"),
            recipient_id: copy_text("bob"),
            direction: MessageDirection::Received,
            status: MessageStatus::Received,
            protocol_counter: Some(initial.message.number),
            ciphertext: copy_bytes(envelope.encrypted_payload.as_slice()),
            plaintext: Some(plaintext.clone()),
            created_at_unix_secs: now,
        },
    );
    let state = store_bob(bob);
    storage.save_local_identity_at("bob-mailbox", "bob", state.as_slice(), now);
    assert(is_bob_form(state@, bob@));
    Ok(Some(plaintext))
}

/// What is deposited is what the recipient can fetch, until it expires or its retrieval
/// is confirmed: the node hands the envelope out as it came.
pub proof fn law_envelope_is_handed_out_unchanged(envelope: OfflineView, now: u64)
    ensures
        handed_out(kept_envelope(envelope, now)) == envelope,
{
}

/// A deposit at the mailbox does not end the wait in the outbox.
pub proof fn law_deposit_leaves_outbox_waiting(
    before: StorageView,
    after: StorageView,
    bundle: BundleView,
    alice: AliceView,
    envelope: OfflineView,
    text: Seq<char>,
    now: u64,
)
    requires
        was_deposited(before, after, bundle, alice, envelope, text, now),
    ensures
        after.outbox.contains_key(envelope.message_id),
        after.outbox[envelope.message_id].status == OutboxStatus::Pending,
        after.outbox[envelope.message_id].payload == envelope.encrypted_payload,
{
}

/// What is left at the mailbox for the owner of a bundle is read by that owner, once it is
/// fetched.
pub proof fn law_deposited_message_is_read(
    before: StorageView,
    after: StorageView,
    bundle: BundleView,
    alice: AliceView,
    alice_after: AliceView,
    bob: BobView,
    envelope: OfflineView,
    text: Seq<char>,
    now: u64,
)
    requires
        is_bundle_of(bundle, bob),
        bob.signed_prekey_private_key.len() == 32,
        (bob.one_time_prekey->0).1.len() == 32,
        has_opened(alice, alice_after, bundle),
        was_deposited(before, after, bundle, alice_after, envelope, text, now),
    ensures
        envelope.recipient_token == token_of(bundle.identity_public_key),
        decoding::<InitialMessage>(envelope.encrypted_payload) matches Some(initial)
            && bob.receiving_initial(initial).1 == Ok::<Seq<char>, CryptoError>(text),
{
    let (initial, state, session_state) = choose|
        initial: InitialView,
        state: Seq<u8>,
        session_state: Seq<u8>,
    |
        #[trigger] is_deposit(
            before,
            after,
            bundle,
            alice_after,
            envelope,
            text,
            now,
            initial,
            state,
            session_state,
        );
    assert(is_initial_for(initial, envelope.encrypted_payload, bundle, alice_after, text));
    law_first_message_is_read(alice, alice_after, bob, bundle, envelope.encrypted_payload, text);
}

} // verus!
