//! Scenes that show the messenger at work, each with what it always comes to.

use crate::bytes::utf8;
use crate::delivery::{
    acknowledged, actor_message, actor_record, can_be_taken, can_take,
    deliver_outbox_item_to_bob, handle_ack, is_kept_as, is_queued_as, message_id_for, payload_id,
    persist_actor_message, queue_durable_message, retry_outbox_item, was_handed_over, was_queued,
    was_retried, with_processed, DeliveryError,
};
use crate::error::CryptoError;
use crate::frames::DurableAppEnvelope;
use crate::identity::{BundleView, PreKeyBundle, SignedKeyExchange};
use crate::party::{
    is_bundle_of, is_exchange_of, opened_with, Alice, AliceView, Bob, BobView, InitialMessage,
    InitialView, SimulatedDirectory,
};
use crate::profile::ChatParty;
use crate::party_laws::{law_exchanged_sessions_are_paired, law_initial_message_is_read};
use crate::primitives::{aead_overruns, x25519_public};
use crate::ratchet::{aead_key, alice_chain};
use crate::records::{MessageDirection, MessageRow, MessageStatus, OutboxItem, OutboxStatus};
use crate::session::{is_sent, MessageView, RatchetMessage, RatchetRole, SessionView};
use crate::history::MAX_STORED;
use crate::session_laws::{in_step, law_messages_in_order_are_read};
use crate::sorted::{is_selection, lemma_single_selection, views};
use crate::states::{
    is_alice_form, is_bob_form, is_session_form, restore_alice, restore_bob, store_alice,
    store_bob, store_ratchet, stored_alice, stored_bob,
};
use crate::storage::{outbox_place, OutboxOrder, OutboxRow, Storage, StorageView};
use crate::text::joined;
use crate::wire::{decode, decoding, encode, Wire};
use vstd::prelude::*;
use vstd::utf8::{is_ascii_chars, is_ascii_chars_encode_utf8};

verus! {

/// Whether Bob has read everything that Alice has sent, in order.
pub open spec fn are_in_step(alice: AliceView, bob: BobView) -> bool {
    &&& alice.session matches Some(a)
    &&& bob.session matches Some(b)
    &&& in_step(a, b, alice_chain(a.root_key))
}

/// The session that a party starts with its private key and the public key of the other.
pub open spec fn exchanged_session(
    role: RatchetRole,
    private_key: Seq<u8>,
    peer: Seq<u8>,
) -> SessionView {
    SessionView::start(aead_key(private_key, peer), role, private_key, peer)
}

/// Whether Alice and Bob have exchanged keys and have said nothing yet.
pub open spec fn have_met(alice: AliceView, bob: BobView) -> bool {
    &&& alice.session == Some(
        exchanged_session(
            RatchetRole::Alice,
            alice.x25519_private_key,
            x25519_public(bob.x25519_private_key),
        ),
    )
    &&& bob.session == Some(
        exchanged_session(
            RatchetRole::Bob,
            bob.x25519_private_key,
            x25519_public(alice.x25519_private_key),
        ),
    )
    &&& are_in_step(alice, bob)
}

/// Alice and Bob after they have exchanged keys.
pub fn meet() -> (pair: (Alice, Bob))
    ensures
        have_met(pair.0@, pair.1@),
{
    let mut alice = Alice::local();
    let mut bob = Bob::local();
    let ghost a = alice@.x25519_private_key;
    let ghost b = bob@.x25519_private_key;
    let alice_exchange = alice.signed_key_exchange();
    let bob_exchange = bob.signed_key_exchange();
    let _ = alice.derive_session_key(&bob_exchange);
    let _ = bob.derive_session_key(&alice_exchange);
    proof {
        assert(x25519_public(b) == bob_exchange.x25519_public_key@);
        law_exchanged_sessions_are_paired(a, b);
    }
    (alice, bob)
}

/// Alice says something, and Bob reads it.
pub fn say(alice: &mut Alice, bob: &mut Bob, text: &str) -> (said: Result<
    (RatchetMessage, String),
    CryptoError,
>)
    requires
        are_in_step(old(alice)@, old(bob)@),
        (old(alice)@.session->0).can_send(),
        utf8(text@).len() < 64 * 0xffff_ffff,
        !aead_overruns(utf8(text@).len() as int),
    ensures
        said matches Ok(said) && said.1@ == text@ && is_sent(
            old(alice)@.session->0,
            said.0@,
            text@,
        ),
        are_in_step(final(alice)@, final(bob)@),
        final(alice)@ == (AliceView {
            session: Some((old(alice)@.session->0).send_advanced()),
            ..old(alice)@
        }),
        said matches Ok(said) && final(bob)@ == old(bob)@.reading(said.0@).0 && old(
            bob,
        )@.reading(said.0@).1 == Ok::<Seq<char>, CryptoError>(text@),
{
    let ghost a = alice@.session->0;
    let ghost b = bob@.session->0;
    let message = alice.encrypt_for_bob(text)?;
    proof {
        law_messages_in_order_are_read(a, b, alice_chain(a.root_key), message@, text@);
    }
    let read = bob.decrypt_from_alice(&message)?;
    Ok((message, read))
}

/// A plain text takes as many bytes as characters.
proof fn lemma_plain_text(text: Seq<char>)
    requires
        is_ascii_chars(text),
        text.len() < 1000,
    ensures
        utf8(text).len() < 1000,
        !aead_overruns(utf8(text).len() as int),
{
    is_ascii_chars_encode_utf8(text);
}

/// What the scene of two parties that talk at once, and of one that is away, shows.
pub struct LocalDemo {
    pub alice_exchange: SignedKeyExchange,
    pub bob_exchange: SignedKeyExchange,
    pub message: RatchetMessage,
    pub plaintext: String,
    pub bundle: PreKeyBundle,
    pub initial: InitialMessage,
    pub offline_plaintext: String,
}

/// Whether `message` says `text` on the session that two exchanges start, and `read` is what
/// the other side makes of it.
pub open spec fn is_said_after_exchange(
    alice_exchange: SignedKeyExchange,
    bob_exchange: SignedKeyExchange,
    message: MessageView,
    text: Seq<char>,
    read: Seq<char>,
) -> bool {
    exists|alice: AliceView, bob: BobView|
        {
            &&& #[trigger] is_exchange_of(
                alice_exchange,
                alice.identity_secret_key,
                alice.x25519_private_key,
            )
            &&& #[trigger] is_exchange_of(
                bob_exchange,
                bob.identity_secret_key,
                bob.x25519_private_key,
            )
            &&& have_met(alice, bob)
            &&& alice.says(message, text)
            &&& bob.reading(message).1 == Ok::<Seq<char>, CryptoError>(read)
        }
}

/// Whether `initial` says `text` to the owner of a bundle, and `read` is what the owner
/// makes of it.
pub open spec fn is_said_with_bundle(
    bundle: BundleView,
    initial: InitialView,
    text: Seq<char>,
    read: Seq<char>,
) -> bool {
    exists|owner: BobView, fresh: Seq<u8>|
        {
            &&& #[trigger] is_bundle_of(bundle, owner)
            &&& #[trigger] is_sent(opened_with(bundle, fresh), initial.message, text)
            &&& initial.alice_initial_public_key == x25519_public(fresh)
            &&& initial.one_time_prekey_id == bundle.one_time_prekey_id
            &&& owner.receiving_initial(initial).1 == Ok::<Seq<char>, CryptoError>(read)
        }
}

pub const LOCAL_TEXT: &'static str = "hello bob, this is alice";

pub const OFFLINE_TEXT: &'static str = "hello offline bob";

/// Alice writes to Bob after an exchange of keys, and, with a bundle that was left, to a Bob
/// who is away. Both are read.
pub fn local_demo() -> (shown: Result<LocalDemo, CryptoError>)
    ensures
        shown matches Ok(shown) && {
            &&& shown.plaintext@ == LOCAL_TEXT@
            &&& shown.offline_plaintext@ == OFFLINE_TEXT@
            &&& is_said_after_exchange(
                shown.alice_exchange,
                shown.bob_exchange,
                shown.message@,
                LOCAL_TEXT@,
                shown.plaintext@,
            )
            &&& is_said_with_bundle(
                shown.bundle@,
                shown.initial@,
                OFFLINE_TEXT@,
                shown.offline_plaintext@,
            )
        },
{
    proof {
        reveal_strlit("hello bob, this is alice");
        reveal_strlit("hello offline bob");
        lemma_plain_text(LOCAL_TEXT@);
        lemma_plain_text(OFFLINE_TEXT@);
    }
    let (mut alice, mut bob) = meet();
    let alice_exchange = alice.signed_key_exchange();
    let bob_exchange = bob.signed_key_exchange();
    let ghost alice_before = alice@;
    let ghost bob_before = bob@;
    let (message, plaintext) = say(&mut alice, &mut bob, LOCAL_TEXT)?;
    proof {
        assert(is_exchange_of(
            alice_exchange,
            alice_before.identity_secret_key,
            alice_before.x25519_private_key,
        ));
        assert(is_exchange_of(
            bob_exchange,
            bob_before.identity_secret_key,
            bob_before.x25519_private_key,
        ));
        assert(is_said_after_exchange(
            alice_exchange,
            bob_exchange,
            message@,
            LOCAL_TEXT@,
            plaintext@,
        ));
    }
    let mut offline_bob = Bob::local();
    let mut directory = SimulatedDirectory::new();
    directory.publish_bob_bundle(&offline_bob)?;
    let mut writer = Alice::local();
    let bundle = directory.take_bob_prekey_bundle()?;
    let initial = writer.encrypt_initial_message(&bundle, OFFLINE_TEXT)?;
    proof {
        let fresh = (writer@.session->0).dh_private;
        let signed = offline_bob@.signed_prekey_private_key;
        let one_time = (offline_bob@.one_time_prekey->0).1;
        assert(x25519_public(signed) == bundle@.signed_prekey_public_key);
        assert(x25519_public(one_time) == bundle@.one_time_prekey_public_key);
        law_initial_message_is_read(bundle@, offline_bob@, fresh, initial@, OFFLINE_TEXT@);
        assert(is_bundle_of(bundle@, offline_bob@));
        assert(is_sent(opened_with(bundle@, fresh), initial@.message, OFFLINE_TEXT@));
        assert(is_said_with_bundle(bundle@, initial@, OFFLINE_TEXT@, OFFLINE_TEXT@));
    }
    let offline_plaintext = offline_bob.decrypt_initial_message(&initial)?;
    Ok(
        LocalDemo {
            alice_exchange,
            bob_exchange,
            message,
            plaintext,
            bundle,
            initial,
            offline_plaintext,
        },
    )
}

/// The Alice that a storage holds.
pub open spec fn kept_alice(storage: StorageView) -> Option<AliceView> {
    if storage.local_identity.contains_key("alice"@) {
        stored_alice(storage.local_identity["alice"@].state)
    } else {
        None
    }
}

/// The Bob that a storage holds.
pub open spec fn kept_bob(storage: StorageView) -> Option<BobView> {
    if storage.local_identity.contains_key("bob"@) {
        stored_bob(storage.local_identity["bob"@].state)
    } else {
        None
    }
}

/// Whether a storage holds Alice and Bob so that they can go on with their conversation.
pub open spec fn can_resume(storage: StorageView) -> bool {
    &&& kept_alice(storage) matches Some(alice)
    &&& kept_bob(storage) matches Some(bob)
    &&& are_in_step(alice, bob)
}

/// How many messages Alice has sent by what a storage holds.
pub open spec fn messages_sent(storage: StorageView) -> u64 {
    (kept_alice(storage)->0.session->0).send_count
}

/// A storage after one of the two has kept itself, its session and a message.
pub open spec fn with_kept(
    storage: StorageView,
    actor: Seq<char>,
    peer: Seq<char>,
    conversation: Seq<char>,
    state: Seq<u8>,
    session_state: Seq<u8>,
    message: MessageRow,
    now: u64,
) -> StorageView {
    storage.with_local_identity(actor, actor, state, now).with_session(
        conversation,
        peer,
        actor,
        session_state,
        now,
    ).with_message(message)
}

/// A message as Alice keeps it.
pub open spec fn sent_row(
    message: MessageView,
    conversation: Seq<char>,
    text: Seq<char>,
    now: u64,
) -> MessageRow {
    let bytes = RatchetMessage::encoded(message);
    actor_message(
        "alice-"@ + payload_id(bytes, now),
        conversation,
        MessageDirection::Sent,
        MessageStatus::Sent,
        message.number,
        bytes,
        text,
        now,
    )
}

/// A message as Bob keeps it.
pub open spec fn read_row(
    message: MessageView,
    conversation: Seq<char>,
    text: Seq<char>,
    now: u64,
) -> MessageRow {
    let bytes = RatchetMessage::encoded(message);
    actor_message(
        "bob-"@ + payload_id(bytes, now),
        conversation,
        MessageDirection::Received,
        MessageStatus::Received,
        message.number,
        bytes,
        text,
        now,
    )
}

/// Whether `after` is `before` with Bob, Bob's session and what was read kept.
pub open spec fn was_heard(
    before: StorageView,
    after: StorageView,
    bob: BobView,
    conversation: Seq<char>,
    message: MessageView,
    text: Seq<char>,
    now: u64,
) -> bool {
    exists|state: Seq<u8>, session_state: Seq<u8>|
        #[trigger] is_kept_as(bob, state, session_state) && after == with_kept(
            before,
            "bob"@,
            "alice"@,
            conversation,
            state,
            session_state,
            read_row(message, conversation, text, now),
            now,
        )
}

/// Whether Alice, in a session `a`, said `text` with `message` and was kept, whatever Bob
/// then made of it: where the message is read, Bob is kept as well.
pub open spec fn is_said(
    before: StorageView,
    after: StorageView,
    a: SessionView,
    alice_after: AliceView,
    bob: BobView,
    bob_after: BobView,
    conversation: Seq<char>,
    text: Seq<char>,
    now: u64,
    heard: Result<Seq<char>, CryptoError>,
    message: MessageView,
    state: Seq<u8>,
    session_state: Seq<u8>,
) -> bool {
    let told = with_kept(
        before,
        "alice"@,
        "bob"@,
        conversation,
        state,
        session_state,
        sent_row(message, conversation, text, now),
        now,
    );
    &&& is_sent(a, message, text)
    &&& is_alice_form(state, alice_after)
    &&& is_session_form(session_state, alice_after.session)
    &&& match bob.session {
        None => {
            &&& heard == Err::<Seq<char>, CryptoError>(CryptoError::MissingSessionKey)
            &&& bob_after == bob
            &&& after == told
        },
        Some(b) => {
            &&& bob_after == (BobView { session: Some(b.receiving(message).0), ..bob })
            &&& heard == b.receiving(message).1
            &&& match heard {
                Err(_) => after == told,
                Ok(shown) => was_heard(
                    told,
                    after,
                    bob_after,
                    conversation,
                    message,
                    shown,
                    now,
                ),
            }
        },
    }
}

/// Whether Alice said `text` and was kept, whatever the message and the stored states are.
pub open spec fn was_said(
    before: StorageView,
    after: StorageView,
    a: SessionView,
    alice_after: AliceView,
    bob: BobView,
    bob_after: BobView,
    conversation: Seq<char>,
    text: Seq<char>,
    now: u64,
    heard: Result<Seq<char>, CryptoError>,
) -> bool {
    exists|message: MessageView, state: Seq<u8>, session_state: Seq<u8>|
        #[trigger] is_said(
            before,
            after,
            a,
            alice_after,
            bob,
            bob_after,
            conversation,
            text,
            now,
            heard,
            message,
            state,
            session_state,
        )
}

/// The text that was read, or why there is none.
pub open spec fn heard_of(read: Result<String, CryptoError>) -> Result<Seq<char>, CryptoError> {
    match read {
        Ok(text) => Ok(text@),
        Err(error) => Err(error),
    }
}

/// Alice says something and Bob reads it, and each step is stored before the next: Alice
/// and the message, then Bob in the same way. Where the two are in step, Bob reads what was said.
pub fn say_and_store(
    storage: &mut Storage,
    alice: &mut Alice,
    bob: &mut Bob,
    conversation_id: &str,
    text: &str,
    now: u64,
) -> (read: Result<String, CryptoError>)
    requires
        old(storage).wf(),
        old(alice)@.session matches Some(session) ==> session.can_send(),
        utf8(text@).len() < 64 * 0xffff_ffff,
        !aead_overruns(utf8(text@).len() as int),
    ensures
        final(storage).wf(),
        match old(alice)@.session {
            None => {
                &&& read == Err::<String, CryptoError>(CryptoError::MissingSessionKey)
                &&& final(alice)@ == old(alice)@
                &&& final(bob)@ == old(bob)@
                &&& final(storage)@ == old(storage)@
            },
            Some(a) => {
                &&& final(alice)@ == (AliceView { session: Some(a.send_advanced()), ..old(alice)@ })
                &&& was_said(
                    old(storage)@,
                    final(storage)@,
                    a,
                    final(alice)@,
                    old(bob)@,
                    final(bob)@,
                    conversation_id@,
                    text@,
                    now,
                    heard_of(read),
                )
            },
        },
        are_in_step(old(alice)@, old(bob)@) ==> {
            &&& read matches Ok(read) && read@ == text@
            &&& are_in_step(final(alice)@, final(bob)@)
        },
{
    let ghost a = alice@.session->0;
    let ghost b = bob@.session->0;
    let message = match alice.encrypt_for_bob(text) {
        Ok(message) => message,
        Err(error) => {
            return Err(error);
        },
    };
    let bytes = encode(&message);
    let id = message_id_for(bytes.as_slice(), now);
    let record = actor_record(
        joined("alice-", id.as_str()),
        conversation_id,
        MessageDirection::Sent,
        MessageStatus::Sent,
        message.number,
        bytes.as_slice(),
        text,
        now,
    );
    let session_state = match alice.session_state() {
        Some(session) => store_ratchet(&session),
        None => Vec::new(),
    };
    let alice_state = store_alice(alice);
    persist_actor_message(
        storage,
        "alice",
        "alice",
        alice_state.as_slice(),
        conversation_id,
        "bob",
        "alice",
        session_state.as_slice(),
        &record,
        now,
    );
    let ghost told = storage@;
    proof {
        assert(is_sent(a, message@, text@));
        if are_in_step(old(alice)@, old(bob)@) {
            law_messages_in_order_are_read(a, b, alice_chain(a.root_key), message@, text@);
        }
    }
    let read = match bob.decrypt_from_alice(&message) {
        Ok(read) => read,
        Err(error) => {
            proof {
                assert(is_said(
                    old(storage)@,
                    told,
                    a,
                    alice@,
                    old(bob)@,
                    bob@,
                    conversation_id@,
                    text@,
                    now,
                    Err(error),
                    message@,
                    alice_state@,
                    session_state@,
                ));
            }
            return Err(error);
        },
    };
    let record = actor_record(
        joined("bob-", id.as_str()),
        conversation_id,
        MessageDirection::Received,
        MessageStatus::Received,
        message.number,
        bytes.as_slice(),
        read.as_str(),
        now,
    );
    let bob_session_state = match bob.session_state() {
        Some(session) => store_ratchet(&session),
        None => Vec::new(),
    };
    let bob_state = store_bob(bob);
    persist_actor_message(
        storage,
        "bob",
        "bob",
        bob_state.as_slice(),
        conversation_id,
        "alice",
        "bob",
        bob_session_state.as_slice(),
        &record,
        now,
    );
    proof {
        assert(is_kept_as(bob@, bob_state@, bob_session_state@));
        assert(was_heard(told, storage@, bob@, conversation_id@, message@, read@, now));
        assert(is_said(
            old(storage)@,
            storage@,
            a,
            alice@,
            old(bob)@,
            bob@,
            conversation_id@,
            text@,
            now,
            Ok(read@),
            message@,
            alice_state@,
            session_state@,
        ));
    }
    Ok(read)
}

proof fn lemma_said_is_kept(
    before: StorageView,
    after: StorageView,
    a: SessionView,
    alice_after: AliceView,
    bob: BobView,
    bob_after: BobView,
    conversation: Seq<char>,
    text: Seq<char>,
    now: u64,
    heard: Result<Seq<char>, CryptoError>,
)
    requires
        was_said(before, after, a, alice_after, bob, bob_after, conversation, text, now, heard),
        heard is Ok,
    ensures
        kept_alice(after) == Some(alice_after),
        kept_bob(after) == Some(bob_after),
        after.sessions.contains_key(conversation),
{
    reveal_strlit("alice");
    reveal_strlit("bob");
    assert("alice"@.len() != "bob"@.len());
}

pub const FIRST_TEXT: &'static str = "first message before restart";

pub const SECOND_TEXT: &'static str = "second message after restart";

/// Whether `after` is `before` with Alice, Bob and Alice's session kept.
pub open spec fn were_kept(
    before: StorageView,
    after: StorageView,
    alice: AliceView,
    bob: BobView,
    conversation: Seq<char>,
    now: u64,
) -> bool {
    exists|alice_state: Seq<u8>, bob_state: Seq<u8>, session_state: Seq<u8>|
        {
            &&& is_alice_form(alice_state, alice)
            &&& is_bob_form(bob_state, bob)
            &&& is_session_form(session_state, alice.session)
            &&& after == #[trigger] with_pair(before, alice_state, bob_state, now).with_session(
                conversation,
                "bob"@,
                "alice"@,
                session_state,
                now,
            )
        }
}

/// A storage with Alice and Bob kept.
pub open spec fn with_pair(
    storage: StorageView,
    alice_state: Seq<u8>,
    bob_state: Seq<u8>,
    now: u64,
) -> StorageView {
    storage.with_local_identity("alice"@, "alice"@, alice_state, now).with_local_identity(
        "bob"@,
        "bob"@,
        bob_state,
        now,
    )
}

/// Whether `after` is `before` with an Alice and a Bob who have met, were kept, and have
/// exchanged the first message.
pub open spec fn is_first_part(
    before: StorageView,
    after: StorageView,
    conversation: Seq<char>,
    now: u64,
) -> bool {
    exists|start: StorageView, alice: AliceView, bob: BobView, bob_after: BobView|
        {
            &&& have_met(alice, bob)
            &&& #[trigger] were_kept(before, start, alice, bob, conversation, now)
            &&& #[trigger] was_said(
                start,
                after,
                alice.session->0,
                (AliceView { session: Some((alice.session->0).send_advanced()), ..alice }),
                bob,
                bob_after,
                conversation,
                FIRST_TEXT@,
                now,
                Ok(FIRST_TEXT@),
            )
        }
}

/// The part of the restart scene before the restart: Alice and Bob meet, are stored, and
/// exchange a first message.
pub fn before_restart(storage: &mut Storage, conversation_id: &str, now: u64) -> (read: Result<
    String,
    CryptoError,
>)
    requires
        old(storage).wf(),
    ensures
        final(storage).wf(),
        read matches Ok(read) && read@ == FIRST_TEXT@,
        is_first_part(old(storage)@, final(storage)@, conversation_id@, now),
        can_resume(final(storage)@),
        messages_sent(final(storage)@) == 1,
        final(storage)@.sessions.contains_key(conversation_id@),
{
    proof {
        reveal_strlit("first message before restart");
        lemma_plain_text(FIRST_TEXT@);
    }
    let (mut alice, mut bob) = meet();
    let ghost alice_before = alice@;
    let ghost bob_before = bob@;
    let alice_state = store_alice(&alice);
    let bob_state = store_bob(&bob);
    storage.save_local_identity_at("alice", "alice", alice_state.as_slice(), now);
    storage.save_local_identity_at("bob", "bob", bob_state.as_slice(), now);
    let session_state = match alice.session_state() {
        Some(session) => store_ratchet(&session),
        None => Vec::new(),
    };
    storage.save_session_at(conversation_id, "bob", "alice", session_state.as_slice(), now);
    let ghost start = storage@;
    assert(start == with_pair(old(storage)@, alice_state@, bob_state@, now).with_session(
        conversation_id@,
        "bob"@,
        "alice"@,
        session_state@,
        now,
    ));
    assert(were_kept(old(storage)@, start, alice@, bob@, conversation_id@, now));
    let read = say_and_store(storage, &mut alice, &mut bob, conversation_id, FIRST_TEXT, now);
    proof {
        let a = alice_before.session->0;
        lemma_said_is_kept(
            start,
            storage@,
            a,
            alice@,
            bob_before,
            bob@,
            conversation_id@,
            FIRST_TEXT@,
            now,
            heard_of(read),
        );
        assert(was_said(
            start,
            storage@,
            a,
            (AliceView { session: Some(a.send_advanced()), ..alice_before }),
            bob_before,
            bob@,
            conversation_id@,
            FIRST_TEXT@,
            now,
            Ok(FIRST_TEXT@),
        ));
        assert(is_first_part(old(storage)@, storage@, conversation_id@, now));
    }
    read
}

/// Why a scene does not go on from what a storage holds.
#[derive(Debug, Clone, PartialEq, Eq, Structural)]
pub enum ResumeError {
    MissingAlice,
    MissingBob,
    MissingSession,
    MissingItem,
    /// A party is stored, but cannot be read.
    Malformed,
    /// What is stored does not let Alice and Bob go on with their conversation.
    NotInStep,
    Crypto(CryptoError),
    Delivery(DeliveryError),
}

impl ResumeError {
    pub open spec fn name(self) -> Seq<char> {
        match self {
            ResumeError::MissingAlice => "Alice state missing after restart"@,
            ResumeError::MissingBob => "Bob state missing after restart"@,
            ResumeError::MissingSession => "session row missing after restart"@,
            ResumeError::MissingItem => "outbox row missing after delivery"@,
            ResumeError::Malformed => "malformed stored party"@,
            ResumeError::NotInStep => "stored states do not belong together"@,
            ResumeError::Crypto(error) => error.name(),
            ResumeError::Delivery(error) => error.name(),
        }
    }

    pub fn message(&self) -> (text: &'static str)
        ensures
            text@ == self.name(),
    {
        match self {
            ResumeError::MissingAlice => "Alice state missing after restart",
            ResumeError::MissingBob => "Bob state missing after restart",
            ResumeError::MissingSession => "session row missing after restart",
            ResumeError::MissingItem => "outbox row missing after delivery",
            ResumeError::Malformed => "malformed stored party",
            ResumeError::NotInStep => "stored states do not belong together",
            ResumeError::Crypto(error) => error.message(),
            ResumeError::Delivery(error) => error.message(),
        }
    }
}

/// Why a storage does not give Alice and Bob back, if it does not. Alice is looked for first.
pub open spec fn resume_failure(storage: StorageView) -> Option<ResumeError> {
    if !storage.local_identity.contains_key("alice"@) {
        Some(ResumeError::MissingAlice)
    } else if kept_alice(storage) is None {
        Some(ResumeError::Malformed)
    } else if !storage.local_identity.contains_key("bob"@) {
        Some(ResumeError::MissingBob)
    } else if kept_bob(storage) is None {
        Some(ResumeError::Malformed)
    } else {
        None
    }
}

/// The parties that a storage holds.
pub fn resume(storage: &Storage) -> (pair: Result<(Alice, Bob), ResumeError>)
    requires
        storage.wf(),
    ensures
        match pair {
            Ok((alice, bob)) => kept_alice(storage@) == Some(alice@) && kept_bob(storage@) == Some(
                bob@,
            ),
            Err(error) => resume_failure(storage@) == Some(error),
        },
{
    let alice = match storage.load_local_identity("alice") {
        None => {
            return Err(ResumeError::MissingAlice);
        },
        Some(state) => match restore_alice(state.as_slice()) {
            None => {
                return Err(ResumeError::Malformed);
            },
            Some(alice) => alice,
        },
    };
    let bob = match storage.load_local_identity("bob") {
        None => {
            return Err(ResumeError::MissingBob);
        },
        Some(state) => match restore_bob(state.as_slice()) {
            None => {
                return Err(ResumeError::Malformed);
            },
            Some(bob) => bob,
        },
    };
    Ok((alice, bob))
}

/// What the restart scene shows.
pub struct RestartDemo {
    pub session_bytes: usize,
    pub plaintext: String,
}

/// Whether the second message was said by the parties that a storage holds, and shown.
pub open spec fn is_second_part(
    before: StorageView,
    after: StorageView,
    alice: AliceView,
    bob: BobView,
    conversation: Seq<char>,
    now: u64,
    shown: Result<RestartDemo, ResumeError>,
) -> bool {
    match alice.session {
        None => {
            &&& shown matches Err(error) && error == ResumeError::Crypto(
                CryptoError::MissingSessionKey,
            )
            &&& after == before
        },
        Some(a) => if !a.can_send() {
            &&& shown matches Err(error) && error == ResumeError::NotInStep
            &&& after == before
        } else {
            exists|bob_after: BobView, heard: Result<Seq<char>, CryptoError>|
                {
                    &&& #[trigger] was_said(
                        before,
                        after,
                        a,
                        (AliceView { session: Some(a.send_advanced()), ..alice }),
                        bob,
                        bob_after,
                        conversation,
                        SECOND_TEXT@,
                        now,
                        heard,
                    )
                    &&& match heard {
                        Ok(text) => shown matches Ok(shown) && shown.plaintext@ == text
                            && shown.session_bytes == before.sessions[conversation].state.len(),
                        Err(error) => shown matches Err(refused) && refused == ResumeError::Crypto(
                            error,
                        ),
                    }
                }
        },
    }
}

/// The part of the restart scene after the restart: Alice and Bob come back out of the
/// storage and exchange a second message. Wherever the first part has left the storage,
/// this one succeeds.
pub fn after_restart(storage: &mut Storage, conversation_id: &str, now: u64) -> (shown: Result<
    RestartDemo,
    ResumeError,
>)
    requires
        old(storage).wf(),
    ensures
        final(storage).wf(),
        match (kept_alice(old(storage)@), kept_bob(old(storage)@)) {
            (Some(alice), Some(bob)) => if old(storage)@.sessions.contains_key(conversation_id@) {
                is_second_part(
                    old(storage)@,
                    final(storage)@,
                    alice,
                    bob,
                    conversation_id@,
                    now,
                    shown,
                )
            } else {
                &&& shown matches Err(error) && error == ResumeError::MissingSession
                &&& final(storage)@ == old(storage)@
            },
            _ => {
                &&& shown matches Err(error) && resume_failure(old(storage)@) == Some(error)
                &&& final(storage)@ == old(storage)@
            },
        },
        can_resume(old(storage)@) && messages_sent(old(storage)@) < u64::MAX && old(
            storage,
        )@.sessions.contains_key(conversation_id@) ==> {
            &&& shown matches Ok(shown) && shown.plaintext@ == SECOND_TEXT@
            &&& can_resume(final(storage)@)
            &&& messages_sent(final(storage)@) == messages_sent(old(storage)@) + 1
        },
{
    proof {
        reveal_strlit("second message after restart");
        lemma_plain_text(SECOND_TEXT@);
    }
    let (mut alice, mut bob) = match resume(storage) {
        Ok(pair) => pair,
        Err(error) => {
            return Err(error);
        },
    };
    let ghost alice_before = alice@;
    let ghost bob_before = bob@;
    let loaded = match storage.load_session(conversation_id) {
        Some(state) => state,
        None => {
            return Err(ResumeError::MissingSession);
        },
    };
    let session_bytes: usize = loaded.len();
    if !alice.can_send() {
        return Err(ResumeError::NotInStep);
    }
    let read = say_and_store(storage, &mut alice, &mut bob, conversation_id, SECOND_TEXT, now);
    proof {
        if alice_before.session is Some {
            let a = alice_before.session->0;
            assert(was_said(
                old(storage)@,
                storage@,
                a,
                (AliceView { session: Some(a.send_advanced()), ..alice_before }),
                bob_before,
                bob@,
                conversation_id@,
                SECOND_TEXT@,
                now,
                heard_of(read),
            ));
            if read is Ok {
                lemma_said_is_kept(
                    old(storage)@,
                    storage@,
                    a,
                    alice@,
                    bob_before,
                    bob@,
                    conversation_id@,
                    SECOND_TEXT@,
                    now,
                    heard_of(read),
                );
            }
        }
    }
    let shown = match read {
        Ok(plaintext) => Ok(RestartDemo { session_bytes, plaintext }),
        Err(error) => Err(ResumeError::Crypto(error)),
    };
    assert(is_second_part(
        old(storage)@,
        storage@,
        alice_before,
        bob_before,
        conversation_id@,
        now,
        shown,
    ));
    shown
}

pub const DURABLE_TEXT: &'static str = "durable hello while bob is offline";

/// Whether a storage holds one queued message, which Bob can read, and nothing else waits.
pub open spec fn holds_queued_message(storage: StorageView, id: Seq<char>) -> bool {
    &&& storage.local_identity.contains_key("bob"@)
    &&& stored_bob(storage.local_identity["bob"@].state) matches Some(bob)
    &&& bob.session matches Some(session)
    &&& storage.outbox.contains_key(id)
    &&& forall|key: Seq<char>| #[trigger] storage.outbox.contains_key(key) ==> key == id
    &&& storage.outbox[id].status == OutboxStatus::Pending
    &&& storage.outbox[id].retry_count == 0
    &&& !storage.accepted.contains_key(id)
    &&& decoding::<DurableAppEnvelope>(storage.outbox[id].payload) matches Some(delivery)
    &&& storage.outbox[id].payload == DurableAppEnvelope::encoded(delivery)
    &&& delivery.message_id == id
    &&& session.can_receive(delivery.message)
    &&& !aead_overruns(delivery.message.ciphertext.len() - 16)
    &&& session.receiving(delivery.message).1 == Ok::<Seq<char>, CryptoError>(DURABLE_TEXT@)
}

/// Whether a storage holds an Alice and a Bob who have met, and the message that Alice has
/// queued, and nothing else.
pub open spec fn is_queueing_part(
    storage: StorageView,
    conversation: Seq<char>,
    id: Seq<char>,
    now: u64,
) -> bool {
    exists|alice: AliceView, bob: BobView, alice_state: Seq<u8>, bob_state: Seq<u8>|
        {
            &&& #[trigger] have_met(alice, bob)
            &&& is_alice_form(alice_state, alice)
            &&& is_bob_form(bob_state, bob)
            &&& #[trigger] was_queued(
                with_pair(StorageView::nothing(), alice_state, bob_state, now),
                storage,
                alice.session->0,
                (AliceView { session: Some((alice.session->0).send_advanced()), ..alice }),
                conversation,
                id,
                DURABLE_TEXT@,
                now,
            )
        }
}

/// The part of the outbox scene before the restart: Alice and Bob meet and are stored, and
/// Alice queues a message while Bob is away.
pub fn before_outbox_restart(conversation_id: &str, now: u64) -> (queued: Result<
    (Storage, String),
    CryptoError,
>)
    ensures
        queued matches Ok((storage, id)) && storage.wf() && holds_queued_message(storage@, id@)
            && kept_alice(storage@) is Some && is_queueing_part(
            storage@,
            conversation_id@,
            id@,
            now,
        ),
{
    proof {
        reveal_strlit("durable hello while bob is offline");
        lemma_plain_text(DURABLE_TEXT@);
        reveal_strlit("alice");
        reveal_strlit("bob");
        assert("alice"@.len() != "bob"@.len());
    }
    let mut storage = Storage::open_in_memory();
    let (mut alice, bob) = meet();
    let ghost alice_before = alice@;
    let ghost a = alice@.session->0;
    let ghost b = bob@.session->0;
    let alice_state = store_alice(&alice);
    let bob_state = store_bob(&bob);
    storage.save_local_identity_at("alice", "alice", alice_state.as_slice(), now);
    storage.save_local_identity_at("bob", "bob", bob_state.as_slice(), now);
    let ghost before = storage@;
    assert(before == with_pair(StorageView::nothing(), alice_state@, bob_state@, now));
    let id = queue_durable_message(&mut storage, &mut alice, conversation_id, DURABLE_TEXT, now)?;
    proof {
        let (message, payload, state, session_state) = choose|
            message: MessageView,
            payload: Seq<u8>,
            state: Seq<u8>,
            session_state: Seq<u8>,
        |
            #[trigger] is_queued_as(
                before,
                storage@,
                a,
                alice@,
                conversation_id@,
                id@,
                DURABLE_TEXT@,
                now,
                message,
                payload,
                state,
                session_state,
            );
        law_messages_in_order_are_read(a, b, alice_chain(a.root_key), message, DURABLE_TEXT@);
        assert(have_met(alice_before, bob@));
        assert(was_queued(
            with_pair(StorageView::nothing(), alice_state@, bob_state@, now),
            storage@,
            a,
            (AliceView { session: Some(a.send_advanced()), ..alice_before }),
            conversation_id@,
            id@,
            DURABLE_TEXT@,
            now,
        ));
        assert(is_queueing_part(storage@, conversation_id@, id@, now));
    }
    Ok((storage, id))
}

/// What the outbox scene shows.
pub struct OutboxDemo {
    pub pending: usize,
    pub status: OutboxStatus,
    pub retry_count: u64,
}

/// Whether one more attempt to deliver an outbox item can be counted, and its message can be
/// handed to Bob.
pub open spec fn can_be_tried(storage: StorageView, bob: BobView, item: OutboxRow) -> bool {
    &&& storage.outbox.contains_key(item.message_id)
        ==> storage.outbox[item.message_id].retry_count != MAX_STORED
    &&& can_be_taken(storage, bob, item.payload)
}

/// Whether storages and Bobs follow each other from `start` and `bob` by one confirmed
/// delivery after the other, of the first of `items` in turn.
pub open spec fn is_outbox_course(
    start: StorageView,
    bob: BobView,
    items: Seq<OutboxRow>,
    conversation: Seq<char>,
    now: u64,
    storages: Seq<StorageView>,
    bobs: Seq<BobView>,
) -> bool {
    &&& 0 < storages.len() <= items.len() + 1
    &&& bobs.len() == storages.len()
    &&& storages[0] == start
    &&& bobs[0] == bob
    &&& forall|i: int|
        0 <= i < storages.len() - 1 ==> is_confirmed_step(
            #[trigger] storages[i],
            storages[i + 1],
            bobs[i],
            bobs[i + 1],
            items[i],
            conversation,
            now,
        )
}

/// Whether an outbox item was delivered to Bob and confirmed.
pub open spec fn is_confirmed_step(
    before: StorageView,
    after: StorageView,
    bob: BobView,
    bob_after: BobView,
    item: OutboxRow,
    conversation: Seq<char>,
    now: u64,
) -> bool {
    &&& can_be_tried(before, bob, item)
    &&& exists|id: Seq<char>| #[trigger]
        was_retried(before, after, bob, bob_after, conversation, item, now, Ok(id))
}

/// How the outbox scene ends with the item at which a delivery was not confirmed.
pub open spec fn is_stopped_at(
    before: StorageView,
    after: StorageView,
    bob: BobView,
    item: OutboxRow,
    conversation: Seq<char>,
    now: u64,
    shown: Result<OutboxDemo, ResumeError>,
) -> bool {
    if can_be_tried(before, bob, item) {
        exists|bob_after: BobView, error: DeliveryError|
            {
                &&& #[trigger] was_retried(
                    before,
                    after,
                    bob,
                    bob_after,
                    conversation,
                    item,
                    now,
                    Err(error),
                )
                &&& shown == Err::<OutboxDemo, ResumeError>(ResumeError::Delivery(error))
            }
    } else {
        &&& shown == Err::<OutboxDemo, ResumeError>(ResumeError::NotInStep)
        &&& after == before
    }
}

/// How the outbox scene ends once all items that waited, `pending` in number, were delivered:
/// the item of `id` is handed over once more.
pub open spec fn is_repeated(
    before: StorageView,
    after: StorageView,
    bob: BobView,
    pending: nat,
    id: Seq<char>,
    conversation: Seq<char>,
    now: u64,
    shown: Result<OutboxDemo, ResumeError>,
) -> bool {
    if !before.outbox.contains_key(id) {
        &&& shown == Err::<OutboxDemo, ResumeError>(ResumeError::MissingItem)
        &&& after == before
    } else if !can_be_taken(before, bob, before.outbox[id].payload) {
        &&& shown == Err::<OutboxDemo, ResumeError>(ResumeError::NotInStep)
        &&& after == before
    } else {
        exists|
            handed: StorageView,
            bob_after: BobView,
            ack: Result<Seq<char>, DeliveryError>,
        |
            {
                &&& #[trigger] was_handed_over(
                    before,
                    handed,
                    bob,
                    bob_after,
                    conversation,
                    before.outbox[id].payload,
                    now,
                    ack,
                )
                &&& match ack {
                    Ok(confirmed) => {
                        &&& after == handed.with_outbox_delivered(confirmed, now)
                        &&& shown matches Ok(shown) && shown.pending == pending && shown.status
                            == before.outbox[id].status && shown.retry_count
                            == before.outbox[id].retry_count
                    },
                    Err(error) => {
                        &&& after == handed
                        &&& shown == Err::<OutboxDemo, ResumeError>(ResumeError::Delivery(error))
                    },
                }
            }
    }
}

/// Whether the outbox scene ends in `after` with `shown`, after a course of confirmed
/// deliveries: at an item that was not confirmed, or with the repetition.
pub open spec fn is_outbox_end(
    after: StorageView,
    items: Seq<OutboxRow>,
    id: Seq<char>,
    conversation: Seq<char>,
    now: u64,
    shown: Result<OutboxDemo, ResumeError>,
    storages: Seq<StorageView>,
    bobs: Seq<BobView>,
) -> bool {
    let done = storages.len() - 1;
    if done < items.len() {
        is_stopped_at(
            storages.last(),
            after,
            bobs.last(),
            items[done],
            conversation,
            now,
            shown,
        )
    } else {
        is_repeated(
            storages.last(),
            after,
            bobs.last(),
            items.len(),
            id,
            conversation,
            now,
            shown,
        )
    }
}

/// Whether `shown` and `after` are what the part after the restart makes of a storage that
/// holds a Bob.
pub open spec fn is_delivering_part(
    start: StorageView,
    after: StorageView,
    bob: BobView,
    id: Seq<char>,
    conversation: Seq<char>,
    now: u64,
    shown: Result<OutboxDemo, ResumeError>,
) -> bool {
    exists|items: Seq<OutboxRow>, storages: Seq<StorageView>, bobs: Seq<BobView>|
        {
            &&& is_selection::<Seq<char>, OutboxRow, OutboxOrder>(
                items,
                start.outbox,
                outbox_place(OutboxStatus::Pending),
            )
            &&& #[trigger] is_outbox_course(
                start,
                bob,
                items,
                conversation,
                now,
                storages,
                bobs,
            )
            &&& is_outbox_end(after, items, id, conversation, now, shown, storages, bobs)
        }
}

/// Whether one more attempt to deliver an outbox item can be counted.
fn can_count_attempt(storage: &Storage, item: &OutboxItem) -> (answer: bool)
    requires
        storage.wf(),
    ensures
        answer == (storage@.outbox.contains_key(item@.message_id)
            ==> storage@.outbox[item@.message_id].retry_count != MAX_STORED),
{
    match storage.outbox_item(item.message_id.as_str()) {
        Some(known) => known.retry_count != MAX_STORED,
        None => true,
    }
}

/// The part of the outbox scene after the restart: what waits is delivered to Bob and
/// confirmed. A second delivery of the same payload is confirmed and changes nothing else.
pub fn after_outbox_restart(
    storage: &mut Storage,
    conversation_id: &str,
    message_id: &str,
    now: u64,
) -> (shown: Result<OutboxDemo, ResumeError>)
    requires
        old(storage).wf(),
    ensures
        final(storage).wf(),
        match (kept_alice(old(storage)@), kept_bob(old(storage)@)) {
            (Some(_), Some(bob)) => is_delivering_part(
                old(storage)@,
                final(storage)@,
                bob,
                message_id@,
                conversation_id@,
                now,
                shown,
            ),
            _ => {
                &&& shown matches Err(error) && resume_failure(old(storage)@) == Some(error)
                &&& final(storage)@ == old(storage)@
            },
        },
        holds_queued_message(old(storage)@, message_id@) && kept_alice(old(storage)@) is Some ==> {
            &&& shown matches Ok(shown) && shown.pending == 1 && shown.status
                == OutboxStatus::Delivered && shown.retry_count == 1
            &&& was_delivered(
                old(storage)@,
                final(storage)@,
                message_id@,
                conversation_id@,
                now,
            )
            &&& final(storage)@.accepted.contains_key(message_id@)
            &&& final(storage)@.messages.contains_key("bob-"@ + message_id@)
        },
{
    let ghost ready = holds_queued_message(storage@, message_id@) && kept_alice(storage@) is Some;
    let (_, mut bob) = match resume(storage) {
        Ok(pair) => pair,
        Err(error) => {
            return Err(error);
        },
    };
    let pending = storage.pending_outbox_items();
    let ghost rows = views(pending@);
    let ghost start = storage@;
    proof {
        if ready {
            lemma_single_selection::<Seq<char>, OutboxRow, OutboxOrder>(
                rows,
                start.outbox,
                outbox_place(OutboxStatus::Pending),
                message_id@,
            );
        }
    }
    let total: usize = pending.len();
    let ghost kept = bob@;
    let ghost mut storages = seq![storage@];
    let ghost mut bobs = seq![bob@];
    let mut i: usize = 0;
    while i < total
        invariant
            kept_alice(start) is Some,
            kept_bob(start) == Some(kept),
            is_selection::<Seq<char>, OutboxRow, OutboxOrder>(
                rows,
                start.outbox,
                outbox_place(OutboxStatus::Pending),
            ),
            is_outbox_course(start, kept, rows, conversation_id@, now, storages, bobs),
            storages.len() == i + 1,
            storages.last() == storage@,
            bobs.last() == bob@,
            storage.wf(),
            total == pending@.len(),
            i <= total,
            rows == views(pending@),
            start == old(storage)@,
            ready == (holds_queued_message(start, message_id@) && kept_alice(start) is Some),
            ready ==> rows == seq![start.outbox[message_id@]] && holds_queued_message(
                start,
                message_id@,
            ) && start.outbox[message_id@].message_id == message_id@ && stored_bob(
                start.local_identity["bob"@].state,
            ) is Some,
            ready && i == 0 ==> storage@ == start && stored_bob(
                start.local_identity["bob"@].state,
            ) == Some(bob@),
            ready && i > 0 ==> is_delivered(storage@, start, message_id@) && was_delivered(
                start,
                storage@,
                message_id@,
                conversation_id@,
                now,
            ),
        decreases total - i,
    {
        let item = &pending[i];
        proof {
            if ready {
                assert(rows[i as int] == item@);
                assert(rows[0] == start.outbox[message_id@]);
            }
        }
        assert(rows[i as int] == item@);
        if !can_count_attempt(storage, item) || !can_take(storage, &bob, item) {
            proof {
                let shown = Err::<OutboxDemo, ResumeError>(ResumeError::NotInStep);
                assert(is_outbox_end(
                    storage@,
                    rows,
                    message_id@,
                    conversation_id@,
                    now,
                    shown,
                    storages,
                    bobs,
                ));
            }
            return Err(ResumeError::NotInStep);
        }
        let ghost before = storage@;
        let ghost bob_before = bob@;
        match retry_outbox_item(storage, &mut bob, conversation_id, item, now) {
            Ok(id) => {
                proof {
                    assert(is_confirmed_step(
                        before,
                        storage@,
                        bob_before,
                        bob@,
                        rows[i as int],
                        conversation_id@,
                        now,
                    )) by {
                        assert(was_retried(
                            before,
                            storage@,
                            bob_before,
                            bob@,
                            conversation_id@,
                            rows[i as int],
                            now,
                            Ok(id@),
                        ));
                    }
                    storages = storages.push(storage@);
                    bobs = bobs.push(bob@);
                }
            },
            Err(error) => {
                proof {
                    let shown = Err::<OutboxDemo, ResumeError>(ResumeError::Delivery(error));
                    assert(was_retried(
                        before,
                        storage@,
                        bob_before,
                        bob@,
                        conversation_id@,
                        rows[i as int],
                        now,
                        Err(error),
                    ));
                    assert(is_outbox_end(
                        storage@,
                        rows,
                        message_id@,
                        conversation_id@,
                        now,
                        shown,
                        storages,
                        bobs,
                    ));
                }
                return Err(ResumeError::Delivery(error));
            },
        }
        i += 1;
    }
    let delivered = match storage.outbox_item(message_id) {
        Some(item) => item,
        None => {
            proof {
                assert(is_outbox_end(
                    storage@,
                    rows,
                    message_id@,
                    conversation_id@,
                    now,
                    Err(ResumeError::MissingItem),
                    storages,
                    bobs,
                ));
            }
            return Err(ResumeError::MissingItem);
        },
    };
    if !can_take(storage, &bob, &delivered) {
        proof {
            assert(is_outbox_end(
                storage@,
                rows,
                message_id@,
                conversation_id@,
                now,
                Err(ResumeError::NotInStep),
                storages,
                bobs,
            ));
        }
        return Err(ResumeError::NotInStep);
    }
    let status = delivered.status;
    let retry_count: u64 = delivered.retry_count;
    let ghost once = storage@;
    let ghost bob_before = bob@;
    let ack = deliver_outbox_item_to_bob(storage, &mut bob, conversation_id, &delivered, now);
    let ghost handed = storage@;
    assert(was_handed_over(
        once,
        handed,
        bob_before,
        bob@,
        conversation_id@,
        once.outbox[message_id@].payload,
        now,
        acknowledged(ack),
    ));
    let shown = match ack {
        Ok(id) => {
            handle_ack(storage, id.as_str(), now);
            proof {
                if ready {
                    lemma_confirmed_once(start, once, message_id@, conversation_id@, now);
                }
            }
            Ok(OutboxDemo { pending: total, status, retry_count })
        },
        Err(error) => Err(ResumeError::Delivery(error)),
    };
    assert(is_outbox_end(
        storage@,
        rows,
        message_id@,
        conversation_id@,
        now,
        shown,
        storages,
        bobs,
    ));
    shown
}

/// Whether `after` is `start` with one attempt counted for the queued message, what Bob
/// read of it, and its receipt confirmed.
pub open spec fn was_delivered(
    start: StorageView,
    after: StorageView,
    id: Seq<char>,
    conversation: Seq<char>,
    now: u64,
) -> bool {
    let payload = start.outbox[id].payload;
    let delivery = decoding::<DurableAppEnvelope>(payload)->0;
    let bob = kept_bob(start)->0;
    let session = (bob.session->0).receiving(delivery.message).0;
    exists|state: Seq<u8>, session_state: Seq<u8>|
        #[trigger] is_kept_as(
            (BobView { session: Some(session), ..bob }),
            state,
            session_state,
        ) && after == with_processed(
            start.with_outbox_attempt(id, now),
            conversation,
            state,
            session_state,
            delivery,
            payload,
            DURABLE_TEXT@,
            now,
        ).with_outbox_delivered(id, now)
}

proof fn lemma_confirmed_once(
    start: StorageView,
    after: StorageView,
    id: Seq<char>,
    conversation: Seq<char>,
    now: u64,
)
    requires
        was_delivered(start, after, id, conversation, now),
    ensures
        after.with_outbox_delivered(id, now) == after,
{
    assert(after.with_outbox_delivered(id, now).outbox =~= after.outbox);
}

/// Whether the one queued message was delivered and confirmed.
pub open spec fn is_delivered(storage: StorageView, start: StorageView, id: Seq<char>) -> bool {
    &&& storage.outbox.contains_key(id)
    &&& storage.outbox[id].message_id == id
    &&& storage.outbox[id].payload == start.outbox[id].payload
    &&& storage.outbox[id].status == OutboxStatus::Delivered
    &&& storage.outbox[id].retry_count == 1
    &&& storage.accepted.contains_key(id)
    &&& storage.messages.contains_key("bob-"@ + id)
}

} // verus!
