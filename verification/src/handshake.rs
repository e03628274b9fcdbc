//! How a chat starts, and how what waited for its peer is sent: the first message of the
//! side that joins, its reading by the side that waited, and the flush of the queue.

use crate::bytes::{copy_bytes, copy_text, same_text, utf8};
use crate::chat::{
    contact_id_for_display_name, contact_id_for_identity, contact_of_identity, contact_of_name,
    shown_name,
};
use crate::codec::begins_with;
use crate::error::CryptoError;
use crate::frames::{
    chat_bundle_of, chat_initial_of, decode_chat_initial_message, decode_chat_prekey_bundle,
    ChatBundleView, ChatInitialMessage, ChatInitialView, ChatPreKeyBundle, LegacyChatInitialMessage,
};
use crate::identity::BundleView;
use crate::party::{
    is_bundle_of, opened_with, Alice, AliceView, Bob, BobView, InitialMessage, InitialView,
};
use crate::party_laws::law_initial_message_is_read;
use crate::primitives::{aead_overruns, ed25519_public, x25519_public};
use crate::profile::{
    is_frame_of, outgoing_entry, pending_place, ChatHistoryEntry, ChatNames, ChatParty, EntryView,
    PendingOrder, PendingPeerMessage, PendingRow, Profile, ProfileView,
};
use crate::ratchet::{alice_chain, bob_chain, secrets_agree};
use crate::records::{MessageDirection, MessageStatus};
use crate::session::{is_sent, MessageView, SessionView};
use crate::session_laws::{in_step, paired};
use crate::sorted::{is_selection, views, Record};
use crate::states::{is_alice_form, is_bob_form, store_alice, store_bob};
use crate::storage::{LocalIdentityRow, StorageView};
use crate::wire::{decoding, encode, is_form_of, Wire};
use vstd::prelude::*;

verus! {

/// The greatest payload that is read.
pub const MAX_PAYLOAD: u64 = 0x3f_ffff_ff80;

/// What stands in for the identity key of a contact of whom only the name is known.
pub const LEGACY_CONTACT_KEY: &'static str = "legacy display-name contact";

/// Why a chat did not start.
#[derive(Debug, Clone, PartialEq, Eq, Structural)]
pub enum HandshakeError {
    /// The payload is not what it should be.
    Malformed,
    Crypto(CryptoError),
}

impl HandshakeError {
    pub open spec fn name(self) -> Seq<char> {
        match self {
            HandshakeError::Malformed => "malformed pairing payload"@,
            HandshakeError::Crypto(error) => error.name(),
        }
    }

    pub fn message(&self) -> (text: &'static str)
        ensures
            text@ == self.name(),
    {
        match self {
            HandshakeError::Malformed => "malformed pairing payload",
            HandshakeError::Crypto(error) => error.message(),
        }
    }
}

/// The conversation that a first message opens.
pub open spec fn initial_conversation(named: ChatInitialView) -> Seq<char> {
    match named.sender_identity_public_key {
        Some(identity) => contact_of_identity(identity),
        None => contact_of_name(named.sender_display_name),
    }
}

/// The identity under which the sender of a first message is saved.
pub open spec fn initial_identity(named: ChatInitialView) -> Seq<u8> {
    match named.sender_identity_public_key {
        Some(identity) => identity,
        None => utf8(LEGACY_CONTACT_KEY@),
    }
}

/// What the side that waited knows once the first message is read.
pub struct OpenedChat {
    pub remote_display_name: String,
    pub conversation_id: String,
    pub plaintext: String,
}

/// What the side that joins knows once its first message is written.
pub struct JoinedChat {
    pub remote_display_name: String,
    pub conversation_id: String,
    pub payload: Vec<u8>,
}

/// A first message on its way into the history.
pub open spec fn initial_entry(
    named: ChatInitialView,
    local_name: Seq<char>,
    payload: Seq<u8>,
    text: Seq<char>,
) -> EntryView {
    EntryView {
        message_id: None,
        conversation_id: initial_conversation(named),
        sender_display_name: named.sender_display_name,
        peer_display_name: local_name,
        direction: MessageDirection::Received,
        status: MessageStatus::Received,
        protocol_counter: None,
        ciphertext: payload,
        plaintext: text,
    }
}

impl ProfileView {
    /// The profile after a chat was opened by a first message, with the party kept where
    /// `kept` says as what.
    pub open spec fn with_opened_chat(
        self,
        kept: Option<Seq<u8>>,
        named: ChatInitialView,
        local_name: Seq<char>,
        hint: Seq<char>,
        payload: Seq<u8>,
        text: Seq<char>,
        now: u64,
    ) -> ProfileView {
        let before = match kept {
            Some(state) => self.with_storage(
                self.storage.with_local_identity(Bob::slot(), Bob::slot(), state, now),
            ),
            None => self,
        };
        let saved = before.with_chat_contact(
            initial_conversation(named),
            named.sender_display_name,
            initial_identity(named),
            hint,
            now,
        );
        if text.len() > 0 {
            saved.with_history(initial_entry(named, local_name, payload, text), now)
        } else {
            saved
        }
    }
}

/// What is read from bytes is no longer than they are.
pub proof fn lemma_decoded_fits<T: Wire>(bytes: Seq<u8>)
    requires
        decoding::<T>(bytes) is Some,
    ensures
        T::encoded(decoding::<T>(bytes)->0).len() <= bytes.len(),
{
    let contents = choose|contents: T::V|
        T::valid(contents) && begins_with(bytes, #[trigger] T::encoded(contents));
    assert(begins_with(bytes, T::encoded(contents)));
}

proof fn lemma_initial_fits(bytes: Seq<u8>)
    requires
        chat_initial_of(bytes) is Some,
    ensures
        (chat_initial_of(bytes)->0).message.message.ciphertext.len() <= bytes.len(),
{
    if decoding::<ChatInitialMessage>(bytes) is Some {
        lemma_decoded_fits::<ChatInitialMessage>(bytes);
    } else if decoding::<LegacyChatInitialMessage>(bytes) is Some {
        lemma_decoded_fits::<LegacyChatInitialMessage>(bytes);
    } else {
        lemma_decoded_fits::<InitialMessage>(bytes);
    }
}

/// The conversation that a first message opens.
pub fn conversation_of_initial(named: &ChatInitialMessage) -> (id: String)
    ensures
        id@ == initial_conversation(named@),
{
    match &named.sender_identity_public_key {
        Some(identity) => contact_id_for_identity(identity),
        None => contact_id_for_display_name(named.sender_display_name.as_str()),
    }
}

/// The identity under which the sender of a first message is saved.
pub fn identity_of_initial(named: &ChatInitialMessage) -> (identity: Vec<u8>)
    ensures
        identity@ == initial_identity(named@),
{
    match &named.sender_identity_public_key {
        Some(identity) => copy_bytes(identity.as_slice()),
        None => copy_bytes(LEGACY_CONTACT_KEY.as_bytes()),
    }
}

/// Opens a chat by the first message of the side that joins: reads it, keeps the party
/// where that is asked for, saves the sender as a contact, and enters the message into the
/// history unless it is empty.
pub fn open_chat_initial(
    profile: &mut Profile,
    bob: &mut Bob,
    payload: &[u8],
    local_display_name: &str,
    hint: &str,
    keep: bool,
    now: u64,
) -> (opened: Result<OpenedChat, HandshakeError>)
    requires
        old(profile).wf(),
        payload@.len() <= MAX_PAYLOAD,
    ensures
        final(profile).wf(),
        match chat_initial_of(payload@) {
            None => {
                &&& opened matches Err(error) && error == HandshakeError::Malformed
                &&& final(bob)@ == old(bob)@
                &&& final(profile)@ == old(profile)@
            },
            Some(named) => {
                let (after, text) = old(bob)@.receiving_initial(named.message);
                &&& final(bob)@ == after
                &&& match text {
                    Err(error) => {
                        &&& opened matches Err(refused) && refused == HandshakeError::Crypto(error)
                        &&& final(profile)@ == old(profile)@
                    },
                    Ok(text) => {
                        &&& opened matches Ok(chat) && chat.remote_display_name@
                            == named.sender_display_name && chat.conversation_id@
                            == initial_conversation(named) && chat.plaintext@ == text
                        &&& exists|state: Seq<u8>| #[trigger]
                            is_bob_form(state, after) && final(profile)@ == old(
                                profile,
                            )@.with_opened_chat(
                                if keep {
                                    Some(state)
                                } else {
                                    None
                                },
                                named,
                                local_display_name@,
                                hint@,
                                payload@,
                                text,
                                now,
                            )
                    },
                }
            },
        },
{
    let named = match decode_chat_initial_message(payload) {
        Some(named) => named,
        None => {
            return Err(HandshakeError::Malformed);
        },
    };
    proof {
        lemma_initial_fits(payload@);
    }
    let plaintext = match bob.decrypt_initial_message(&named.message) {
        Ok(plaintext) => plaintext,
        Err(error) => {
            return Err(HandshakeError::Crypto(error));
        },
    };
    let state = store_bob(bob);
    if keep {
        profile.storage.save_local_identity_at(
            Bob::slot_name(),
            Bob::slot_name(),
            state.as_slice(),
            now,
        );
    }
    let conversation_id = conversation_of_initial(&named);
    let identity = identity_of_initial(&named);
    profile.save_contact_for_chat(
        conversation_id.as_str(),
        named.sender_display_name.as_str(),
        identity.as_slice(),
        hint,
        now,
    );
    proof {
        reveal_strlit("");
        if plaintext@.len() == 0 {
            assert(plaintext@ =~= ""@);
        }
    }
    if !same_text(plaintext.as_str(), "") {
        profile.persist_chat_message(
            ChatHistoryEntry {
                message_id: None,
                conversation_id: conversation_id.as_str(),
                sender_display_name: named.sender_display_name.as_str(),
                peer_display_name: local_display_name,
                direction: MessageDirection::Received,
                status: MessageStatus::Received,
                protocol_counter: None,
                ciphertext: payload,
                plaintext: plaintext.as_str(),
            },
            now,
        );
    }
    assert(is_bob_form(state@, bob@));
    Ok(OpenedChat { remote_display_name: named.sender_display_name, conversation_id, plaintext })
}

/// Opens a chat over a direct connection by the first message of the side that joins. The
/// sender is saved as a contact before the message is read; the message enters the history
/// unless it is empty.
pub fn open_chat_direct(
    profile: &mut Profile,
    bob: &mut Bob,
    payload: &[u8],
    local_display_name: &str,
    hint: &str,
    now: u64,
) -> (opened: Result<OpenedChat, HandshakeError>)
    requires
        old(profile).wf(),
        payload@.len() <= MAX_PAYLOAD,
    ensures
        final(profile).wf(),
        match chat_initial_of(payload@) {
            None => {
                &&& opened matches Err(error) && error == HandshakeError::Malformed
                &&& final(bob)@ == old(bob)@
                &&& final(profile)@ == old(profile)@
            },
            Some(named) => {
                let (after, text) = old(bob)@.receiving_initial(named.message);
                &&& final(bob)@ == after
                &&& match text {
                    Err(error) => {
                        &&& opened matches Err(refused) && refused == HandshakeError::Crypto(error)
                        &&& final(profile)@ == old(profile)@.with_opened_chat(
                            None,
                            named,
                            local_display_name@,
                            hint@,
                            payload@,
                            Seq::empty(),
                            now,
                        )
                    },
                    Ok(text) => {
                        &&& opened matches Ok(chat) && chat.remote_display_name@
                            == named.sender_display_name && chat.conversation_id@
                            == initial_conversation(named) && chat.plaintext@ == text
                        &&& final(profile)@ == old(profile)@.with_opened_chat(
                            None,
                            named,
                            local_display_name@,
                            hint@,
                            payload@,
                            text,
                            now,
                        )
                    },
                }
            },
        },
{
    let named = match decode_chat_initial_message(payload) {
        Some(named) => named,
        None => {
            return Err(HandshakeError::Malformed);
        },
    };
    proof {
        lemma_initial_fits(payload@);
    }
    let conversation_id = conversation_of_initial(&named);
    let identity = identity_of_initial(&named);
    profile.save_contact_for_chat(
        conversation_id.as_str(),
        named.sender_display_name.as_str(),
        identity.as_slice(),
        hint,
        now,
    );
    let plaintext = match bob.decrypt_initial_message(&named.message) {
        Ok(plaintext) => plaintext,
        Err(error) => {
            return Err(HandshakeError::Crypto(error));
        },
    };
    proof {
        reveal_strlit("");
        if plaintext@.len() == 0 {
            assert(plaintext@ =~= ""@);
        }
    }
    if !same_text(plaintext.as_str(), "") {
        profile.persist_chat_message(
            ChatHistoryEntry {
                message_id: None,
                conversation_id: conversation_id.as_str(),
                sender_display_name: named.sender_display_name.as_str(),
                peer_display_name: local_display_name,
                direction: MessageDirection::Received,
                status: MessageStatus::Received,
                protocol_counter: None,
                ciphertext: payload,
                plaintext: plaintext.as_str(),
            },
            now,
        );
    }
    Ok(OpenedChat { remote_display_name: named.sender_display_name, conversation_id, plaintext })
}

/// Enters the first message of the side that joins into its own history, unless it is empty.
pub fn keep_first_message(
    profile: &mut Profile,
    names: &ChatNames<'_>,
    payload: &[u8],
    message: &str,
    now: u64,
)
    requires
        old(profile).wf(),
    ensures
        final(profile).wf(),
        final(profile)@ == (if message@.len() == 0 {
            old(profile)@
        } else {
            old(profile)@.with_history(
                EntryView {
                    message_id: None,
                    conversation_id: names.conversation_id@,
                    sender_display_name: names.local_display_name@,
                    peer_display_name: names.remote_display_name@,
                    direction: MessageDirection::Sent,
                    status: MessageStatus::Sent,
                    protocol_counter: None,
                    ciphertext: payload@,
                    plaintext: message@,
                },
                now,
            )
        }),
{
    proof {
        reveal_strlit("");
        if message@.len() == 0 {
            assert(message@ =~= ""@);
        }
    }
    if same_text(message, "") {
        return;
    }
    profile.persist_chat_message(
        ChatHistoryEntry {
            message_id: None,
            conversation_id: names.conversation_id,
            sender_display_name: names.local_display_name,
            peer_display_name: names.remote_display_name,
            direction: MessageDirection::Sent,
            status: MessageStatus::Sent,
            protocol_counter: None,
            ciphertext: payload,
            plaintext: message,
        },
        now,
    );
}

/// The bundle with which the side that waits answers, under its name.
pub fn chat_bundle(bob: &Bob, local_display_name: &str) -> (payload: Result<Vec<u8>, CryptoError>)
    ensures
        payload is Ok <==> bob@.one_time_prekey is Some,
        payload matches Err(error) ==> error == CryptoError::PreKeyUnavailable,
        payload matches Ok(bytes) ==> exists|bundle: BundleView|
            is_bundle_of(bundle, bob@) && is_form_of::<ChatPreKeyBundle>(
                bytes@,
                #[trigger] named_bundle(local_display_name@, bundle),
            ),
{
    match bob.prekey_bundle() {
        Ok(bundle) => {
            let named = ChatPreKeyBundle {
                sender_display_name: copy_text(local_display_name),
                bundle,
            };
            let bytes = encode(&named);
            assert(named@ == named_bundle(local_display_name@, bundle@));
            Ok(bytes)
        },
        Err(error) => Err(error),
    }
}

/// A bundle under a name.
pub open spec fn named_bundle(name: Seq<char>, bundle: BundleView) -> ChatBundleView {
    ChatBundleView { sender_display_name: name, bundle }
}

/// A first message under a name and an identity.
pub open spec fn named_initial(
    name: Seq<char>,
    identity: Seq<u8>,
    message: InitialView,
) -> ChatInitialView {
    ChatInitialView {
        sender_display_name: name,
        sender_identity_public_key: Some(identity),
        message,
    }
}

/// Answers a bundle with the first message of a chat: saves the sender of the bundle as a
/// contact, opens a session and writes `message` on it, and keeps the party where that is
/// asked for.
pub fn answer_chat_bundle(
    profile: &mut Profile,
    alice: &mut Alice,
    payload: &[u8],
    local_display_name: &str,
    message: &str,
    hint: &str,
    keep: bool,
    now: u64,
) -> (joined: Result<JoinedChat, HandshakeError>)
    requires
        old(profile).wf(),
        !aead_overruns(utf8(message@).len() as int),
    ensures
        final(profile).wf(),
        match chat_bundle_of(payload@) {
            None => {
                &&& joined matches Err(error) && error == HandshakeError::Malformed
                &&& final(alice)@ == old(alice)@
                &&& final(profile)@ == old(profile)@
            },
            Some(named) => {
                let saved = old(profile)@.with_chat_contact(
                    contact_of_identity(named.bundle.identity_public_key),
                    named.sender_display_name,
                    named.bundle.identity_public_key,
                    hint@,
                    now,
                );
                &&& !named.bundle.is_signed() ==> {
                    &&& joined matches Err(error) && error == HandshakeError::Crypto(
                        CryptoError::SignatureVerification,
                    )
                    &&& final(alice)@ == old(alice)@
                    &&& final(profile)@ == saved
                }
                &&& named.bundle.is_signed() ==> {
                    &&& final(alice)@.session matches Some(session)
                    &&& session.dh_private.len() == 32
                    &&& final(alice)@ == (AliceView {
                        session: Some(
                            opened_with(named.bundle, session.dh_private).send_advanced(),
                        ),
                        ..old(alice)@
                    })
                    &&& joined is Err <==> utf8(message@).len() >= 64 * 0xffff_ffff
                    &&& joined matches Err(error) ==> error == HandshakeError::Crypto(
                        CryptoError::Encrypt,
                    ) && final(profile)@ == saved
                    &&& joined matches Ok(chat) ==> {
                        &&& chat.remote_display_name@ == named.sender_display_name
                        &&& chat.conversation_id@ == contact_of_identity(
                            named.bundle.identity_public_key,
                        )
                        &&& exists|initial: InitialView|
                            {
                                &&& #[trigger] is_sent(
                                    opened_with(named.bundle, session.dh_private),
                                    initial.message,
                                    message@,
                                )
                                &&& initial.alice_initial_public_key == x25519_public(
                                    session.dh_private,
                                )
                                &&& initial.one_time_prekey_id == named.bundle.one_time_prekey_id
                                &&& is_form_of::<ChatInitialMessage>(
                                    chat.payload@,
                                    named_initial(
                                        local_display_name@,
                                        ed25519_public(old(alice)@.identity_secret_key),
                                        initial,
                                    ),
                                )
                            }
                        &&& exists|state: Seq<u8>| #[trigger]
                            is_alice_form(state, final(alice)@) && final(profile)@ == (
                            if keep {
                                saved.with_storage(
                                    saved.storage.with_local_identity(
                                        Alice::slot(),
                                        Alice::slot(),
                                        state,
                                        now,
                                    ),
                                )
                            } else {
                                saved
                            })
                    }
                    &&& forall|peer: Seq<u8>|
                        peer.len() == 32 && (#[trigger] x25519_public(peer)
                            == named.bundle.signed_prekey_public_key || x25519_public(peer)
                            == named.bundle.one_time_prekey_public_key) ==> secrets_agree(
                            session.dh_private,
                            peer,
                        )
                }
            },
        },
{
    let (remote_display_name, bundle) = match decode_chat_prekey_bundle(payload) {
        Some(named) => named,
        None => {
            return Err(HandshakeError::Malformed);
        },
    };
    let conversation_id = contact_id_for_identity(&bundle.identity_public_key);
    profile.save_contact_for_chat(
        conversation_id.as_str(),
        remote_display_name.as_str(),
        bundle.identity_public_key.as_slice(),
        hint,
        now,
    );
    let initial = match alice.encrypt_initial_message(&bundle, message) {
        Ok(initial) => initial,
        Err(error) => {
            return Err(HandshakeError::Crypto(error));
        },
    };
    let state = store_alice(alice);
    if keep {
        profile.storage.save_local_identity_at(
            Alice::slot_name(),
            Alice::slot_name(),
            state.as_slice(),
            now,
        );
    }
    let ghost sent = initial@;
    let named = ChatInitialMessage {
        sender_display_name: copy_text(local_display_name),
        sender_identity_public_key: Some(alice.signed_key_exchange().identity_public_key),
        message: initial,
    };
    let payload = encode(&named);
    proof {
        assert(is_alice_form(state@, alice@));
        assert(named@ == named_initial(
            local_display_name@,
            ed25519_public(alice@.identity_secret_key),
            sent,
        ));
        assert(is_sent(
            opened_with(bundle@, (alice@.session->0).dh_private),
            sent.message,
            message@,
        ));
    }
    Ok(JoinedChat { remote_display_name, conversation_id, payload })
}

/// What the side that joins writes with the bundle of the side that waits is read there,
/// under the names that both gave, and from then on each reads what the other sends.
pub proof fn law_pairing_opens_a_chat(
    bundle_payload: Seq<u8>,
    waiting_name: Seq<char>,
    bundle: BundleView,
    bob: BobView,
    fresh: Seq<u8>,
    initial: InitialView,
    text: Seq<char>,
    initial_payload: Seq<u8>,
    joining_name: Seq<char>,
    identity: Seq<u8>,
)
    requires
        decoding::<ChatPreKeyBundle>(bundle_payload) == Some(named_bundle(waiting_name, bundle)),
        is_bundle_of(bundle, bob),
        secrets_agree(fresh, bob.signed_prekey_private_key),
        secrets_agree(fresh, (bob.one_time_prekey->0).1),
        is_sent(opened_with(bundle, fresh), initial.message, text),
        initial.alice_initial_public_key == x25519_public(fresh),
        initial.one_time_prekey_id == bundle.one_time_prekey_id,
        decoding::<ChatInitialMessage>(initial_payload) == Some(
            named_initial(joining_name, identity, initial),
        ),
    ensures
        chat_bundle_of(bundle_payload) == Some(named_bundle(shown_name(waiting_name), bundle)),
        chat_initial_of(initial_payload) == Some(
            named_initial(shown_name(joining_name), identity, initial),
        ),
        bob.receiving_initial(initial).1 == Ok::<Seq<char>, CryptoError>(text),
        bob.receiving_initial(initial).0.session matches Some(session) && paired(
            opened_with(bundle, fresh).send_advanced(),
            session,
        ) && in_step(
            opened_with(bundle, fresh).send_advanced(),
            session,
            alice_chain(session.root_key),
        ) && in_step(
            session,
            opened_with(bundle, fresh).send_advanced(),
            bob_chain(session.root_key),
        ),
{
    law_initial_message_is_read(bundle, bob, fresh, initial, text);
}

/// A session after it has sent a number of messages.
pub open spec fn sent_on(session: SessionView, count: nat) -> SessionView
    decreases count,
{
    if count == 0 {
        session
    } else {
        sent_on(session, (count - 1) as nat).send_advanced()
    }
}

proof fn lemma_sent_on_counts(session: SessionView, count: nat)
    requires
        session.send_count + count <= u64::MAX,
    ensures
        sent_on(session, count).send_count == session.send_count + count,
    decreases count,
{
    if count > 0 {
        lemma_sent_on_counts(session, (count - 1) as nat);
    }
}

/// Whether a frame carries a message that waited, as the session sends it.
pub open spec fn is_frame_for(
    frame: Seq<u8>,
    session: SessionView,
    item: PendingRow,
    local_name: Seq<char>,
) -> bool {
    exists|message: MessageView| #[trigger]
        is_sent(session, message, item.plaintext) && is_frame_of(
            frame,
            item.message_id,
            local_name,
            message,
        )
}

impl ProfileView {
    /// The profile after an attempt to deliver each of these messages.
    pub open spec fn with_attempts(self, items: Seq<PendingRow>, now: u64) -> ProfileView
        decreases items.len(),
    {
        if items.len() == 0 {
            self
        } else {
            self.with_attempts(items.drop_last(), now).with_attempt(items.last().message_id, now)
        }
    }
}

/// A storage after messages that waited were sent in frames.
pub open spec fn with_sent_frames(
    storage: StorageView,
    items: Seq<PendingRow>,
    frames: Seq<Seq<u8>>,
    conversation: Seq<char>,
    local_name: Seq<char>,
    now: u64,
) -> StorageView
    decreases frames.len(),
{
    if frames.len() == 0 {
        storage
    } else {
        let item = items[frames.len() - 1];
        with_sent_frames(
            storage,
            items,
            frames.drop_last(),
            conversation,
            local_name,
            now,
        ).with_message(
            outgoing_entry(
                item.message_id,
                conversation,
                local_name,
                "peer"@,
                frames.last(),
                item.plaintext,
            ).row(now),
        )
    }
}

/// The frames of a flush, and what stopped it, if anything did.
pub struct Flush {
    pub frames: Vec<Vec<u8>>,
    pub stopped: Option<CryptoError>,
}

/// Writes the messages that wait for the peer of a conversation into frames, the oldest
/// first, and counts an attempt for each. They wait on until the peer has confirmed them.
pub fn flush_pending<P: ChatParty>(
    profile: &mut Profile,
    party: &mut P,
    local_display_name: &str,
    conversation_id: &str,
    now: u64,
) -> (flush: Flush)
    requires
        old(profile).wf(),
        forall|items: Seq<PendingRow>|
            #![trigger is_selection::<Seq<char>, PendingRow, PendingOrder>(
                items,
                old(profile)@.pending,
                pending_place(conversation_id@),
            )]
            is_selection::<Seq<char>, PendingRow, PendingOrder>(
                items,
                old(profile)@.pending,
                pending_place(conversation_id@),
            ) ==> {
                &&& old(party).session() matches Some(session) ==> session.send_count + items.len()
                    <= u64::MAX
                &&& forall|i: int|
                    0 <= i < items.len() ==> !aead_overruns(
                        utf8((#[trigger] items[i]).plaintext).len() as int,
                    )
            },
    ensures
        final(profile).wf(),
        final(party).keys() == old(party).keys(),
        exists|items: Seq<PendingRow>|
            #![trigger is_selection::<Seq<char>, PendingRow, PendingOrder>(
                items,
                old(profile)@.pending,
                pending_place(conversation_id@),
            )]
            {
                let sent = flush.frames@.len();
                let tried = if flush.stopped is Some {
                    sent + 1
                } else {
                    sent
                };
                &&& is_selection::<Seq<char>, PendingRow, PendingOrder>(
                    items,
                    old(profile)@.pending,
                    pending_place(conversation_id@),
                )
                &&& tried <= items.len()
                &&& flush.stopped is None ==> sent == items.len()
                &&& old(party).session() is None && items.len() > 0 ==> sent == 0 && flush.stopped
                    == Some(CryptoError::MissingSessionKey)
                &&& old(party).session() matches Some(session) ==> {
                    &&& final(party).session() == Some(sent_on(session, tried as nat))
                    &&& flush.stopped matches Some(error) ==> error == CryptoError::Encrypt
                        && utf8(items[sent as int].plaintext).len() >= 64 * 0xffff_ffff
                    &&& forall|i: int|
                        0 <= i < sent ==> is_frame_for(
                            (#[trigger] flush.frames@[i])@,
                            sent_on(session, i as nat),
                            items[i],
                            local_display_name@,
                        )
                }
                &&& final(profile)@.pending == old(profile)@.with_attempts(
                    items.take(tried as int),
                    now,
                ).pending
                &&& final(profile)@.known_peers == old(profile)@.known_peers
                &&& final(profile)@.storage == (StorageView {
                    local_identity: final(profile)@.storage.local_identity,
                    ..with_sent_frames(
                        old(profile)@.storage,
                        items,
                        views(flush.frames@),
                        conversation_id@,
                        local_display_name@,
                        now,
                    )
                })
                &&& sent == 0 ==> final(profile)@.storage.local_identity
                    == old(profile)@.storage.local_identity
                &&& sent > 0 ==> exists|state: Seq<u8>|
                    {
                        &&& flush.stopped is None ==> final(party).is_stored_as(state)
                        &&& final(profile)@.storage.local_identity
                            == #[trigger] with_kept_party::<P>(
                            old(profile)@.storage.local_identity,
                            state,
                            now,
                        )
                    }
            },
{
    let items: Vec<PendingPeerMessage> = profile.pending_peer_messages_for_peer(conversation_id);
    let ghost rows = views(items@);
    let ghost start = profile@;
    let names = ChatNames {
        local_display_name,
        remote_display_name: "peer",
        conversation_id,
    };
    let mut frames: Vec<Vec<u8>> = Vec::new();
    let ghost mut kept: Seq<u8> = Seq::empty();
    let mut i: usize = 0;
    assert(rows.take(0) =~= Seq::<PendingRow>::empty());
    assert(views(frames@) =~= Seq::<Seq<u8>>::empty());
    while i < items.len()
        invariant
            profile.wf(),
            rows == views(items@),
            i <= items@.len(),
            frames@.len() == i,
            start == old(profile)@,
            names.local_display_name == local_display_name,
            names.remote_display_name@ == "peer"@,
            names.conversation_id == conversation_id,
            is_selection::<Seq<char>, PendingRow, PendingOrder>(
                rows,
                start.pending,
                pending_place(conversation_id@),
            ),
            old(party).session() matches Some(session) ==> session.send_count + rows.len()
                <= u64::MAX,
            forall|k: int|
                0 <= k < rows.len() ==> !aead_overruns(
                    utf8((#[trigger] rows[k]).plaintext).len() as int,
                ),
            party.keys() == old(party).keys(),
            i > 0 ==> old(party).session() is Some && party.is_stored_as(kept),
            old(party).session() is None ==> party.session() is None,
            old(party).session() matches Some(session) ==> {
                &&& party.session() == Some(sent_on(session, i as nat))
                &&& forall|k: int|
                    0 <= k < i ==> is_frame_for(
                        (#[trigger] frames@[k])@,
                        sent_on(session, k as nat),
                        rows[k],
                        local_display_name@,
                    )
            },
            profile@.pending == start.with_attempts(rows.take(i as int), now).pending,
            profile@.known_peers == start.known_peers,
            profile@.storage == (StorageView {
                local_identity: profile@.storage.local_identity,
                ..with_sent_frames(
                    start.storage,
                    rows,
                    views(frames@),
                    conversation_id@,
                    local_display_name@,
                    now,
                )
            }),
            i == 0 ==> profile@.storage.local_identity == start.storage.local_identity,
            i > 0 ==> profile@.storage.local_identity == with_kept_party::<P>(
                start.storage.local_identity,
                kept,
                now,
            ),
        decreases items@.len() - i,
    {
        let ghost before = profile@;
        let ghost sent_so_far = views(frames@);
        let item = &items[i];
        profile.record_pending_peer_message_attempt(item.message_id.as_str(), now);
        proof {
            assert(rows[i as int] == item@);
            assert(rows.take(i + 1).drop_last() =~= rows.take(i as int));
            assert(rows.take(i + 1).last() == item@);
            if let Some(session) = old(party).session() {
                lemma_sent_on_counts(session, i as nat);
            }
        }
        let ghost attempted = profile@;
        match profile.prepare_frame(
            party,
            &names,
            item.plaintext.as_str(),
            Some(item.message_id.clone()),
            now,
        ) {
            Ok((_, bytes)) => {
                proof {
                    let session = old(party).session()->0;
                    let now_session = sent_on(session, i as nat);
                    let (message, state) = choose|message: MessageView, state: Seq<u8>|
                        #![trigger is_sent(now_session, message, item.plaintext@), party.is_stored_as(
                            state,
                        )]
                        {
                            &&& is_sent(now_session, message, item.plaintext@)
                            &&& party.is_stored_as(state)
                            &&& is_frame_of(
                                bytes@,
                                item.message_id@,
                                local_display_name@,
                                message,
                            )
                            &&& profile@ == attempted.with_storage(
                                attempted.storage.with_local_identity(
                                    P::slot(),
                                    P::slot(),
                                    state,
                                    now,
                                ),
                            ).with_history(
                                outgoing_entry(
                                    item.message_id@,
                                    conversation_id@,
                                    local_display_name@,
                                    "peer"@,
                                    bytes@,
                                    item.plaintext@,
                                ),
                                now,
                            )
                        };
                    assert(is_frame_for(bytes@, now_session, rows[i as int], local_display_name@));
                    let more = sent_so_far.push(bytes@);
                    assert(more.drop_last() =~= sent_so_far);
                    assert(profile@.storage.local_identity =~= with_kept_party::<P>(
                        start.storage.local_identity,
                        state,
                        now,
                    ));
                    assert(profile@.storage == (StorageView {
                        local_identity: profile@.storage.local_identity,
                        ..with_sent_frames(
                            start.storage,
                            rows,
                            more,
                            conversation_id@,
                            local_display_name@,
                            now,
                        )
                    }));
                    kept = state;
                }
                frames.push(bytes);
                assert(views(frames@) =~= sent_so_far.push(bytes@));
            },
            Err(error) => {
                proof {
                    assert(rows.take(i + 1) =~= rows.take(i as int).push(item@));
                }
                return Flush { frames, stopped: Some(error) };
            },
        }
        i += 1;
    }
    assert(rows.take(i as int) =~= rows);
    Flush { frames, stopped: None }
}

/// The identities of a profile with a party kept under its name.
pub open spec fn with_kept_party<P: ChatParty>(
    identities: Map<Seq<char>, LocalIdentityRow>,
    state: Seq<u8>,
    now: u64,
) -> Map<Seq<char>, LocalIdentityRow> {
    identities.insert(
        P::slot(),
        LocalIdentityRow { role: P::slot(), state, updated_at_unix_secs: now },
    )
}

} // verus!
