//! A chat profile: what a client keeps, the peers it knows and the messages that wait for
//! them, and what a chat does to all of it.

use crate::bytes::{copy_bytes, copy_text, same_text, utf8};
use crate::chat::{
    chat_message_id, contact_id_for_identity, contact_of_identity, display_name_or_anonymous,
    history_id, message_status_label, shown_name,
};
use crate::error::CryptoError;
use crate::frames::{ChatFrame, FrameView};
use crate::history::{rank_stored, stored_rank};
use crate::party::{Alice, AliceView, Bob, BobView};
use crate::primitives::aead_overruns;
use crate::records::{
    ContactRecord, ContactRow, MessageDirection, MessageRecord, MessageRow, MessageStatus,
};
use crate::session::{is_sent, MessageView, RatchetMessage, SessionView};
use crate::sorted::{
    count_where, is_selection, keys_where, option_view, select, views, Record, SortedMap,
};
use crate::states::{is_alice_form, is_bob_form, store_alice, store_bob};
use crate::storage::{ChatSummary, Storage, StorageView};
use crate::text::joined;
use crate::wire::{encode, is_form_of, Wire};
use vstd::prelude::*;

verus! {

/// A peer with which a client has talked.
#[derive(Debug, Clone, PartialEq, Eq)]
pub struct KnownPeerRecord {
    pub peer_id: String,
    pub identity_public_key: Vec<u8>,
    pub display_name: String,
    pub conversation_id: String,
    pub last_seen_at_unix_secs: u64,
}

/// The contents of a `KnownPeerRecord`.
#[verifier::ext_equal]
pub struct KnownPeerRow {
    pub peer_id: Seq<char>,
    pub identity_public_key: Seq<u8>,
    pub display_name: Seq<char>,
    pub conversation_id: Seq<char>,
    pub last_seen_at_unix_secs: u64,
}

impl View for KnownPeerRecord {
    type V = KnownPeerRow;

    open spec fn view(&self) -> KnownPeerRow {
        KnownPeerRow {
            peer_id: self.peer_id@,
            identity_public_key: self.identity_public_key@,
            display_name: self.display_name@,
            conversation_id: self.conversation_id@,
            last_seen_at_unix_secs: self.last_seen_at_unix_secs,
        }
    }
}

impl Record for KnownPeerRecord {
    fn duplicate(&self) -> (copy: KnownPeerRecord) {
        KnownPeerRecord {
            peer_id: self.peer_id.clone(),
            identity_public_key: copy_bytes(self.identity_public_key.as_slice()),
            display_name: self.display_name.clone(),
            conversation_id: self.conversation_id.clone(),
            last_seen_at_unix_secs: self.last_seen_at_unix_secs,
        }
    }
}

/// A message that waits until its peer has confirmed it.
#[derive(Debug, Clone, PartialEq, Eq)]
pub struct PendingPeerMessage {
    pub message_id: String,
    pub peer_id: String,
    pub conversation_id: String,
    pub plaintext: String,
    pub created_at_unix_secs: u64,
    pub retry_count: u64,
    pub last_attempt_unix_secs: Option<u64>,
}

/// The contents of a `PendingPeerMessage`.
#[verifier::ext_equal]
pub struct PendingRow {
    pub message_id: Seq<char>,
    pub peer_id: Seq<char>,
    pub conversation_id: Seq<char>,
    pub plaintext: Seq<char>,
    pub created_at_unix_secs: u64,
    pub retry_count: u64,
    pub last_attempt_unix_secs: Option<u64>,
}

impl View for PendingPeerMessage {
    type V = PendingRow;

    open spec fn view(&self) -> PendingRow {
        PendingRow {
            message_id: self.message_id@,
            peer_id: self.peer_id@,
            conversation_id: self.conversation_id@,
            plaintext: self.plaintext@,
            created_at_unix_secs: self.created_at_unix_secs,
            retry_count: self.retry_count,
            last_attempt_unix_secs: self.last_attempt_unix_secs,
        }
    }
}

impl Record for PendingPeerMessage {
    fn duplicate(&self) -> (copy: PendingPeerMessage) {
        PendingPeerMessage {
            message_id: self.message_id.clone(),
            peer_id: self.peer_id.clone(),
            conversation_id: self.conversation_id.clone(),
            plaintext: self.plaintext.clone(),
            created_at_unix_secs: self.created_at_unix_secs,
            retry_count: self.retry_count,
            last_attempt_unix_secs: self.last_attempt_unix_secs,
        }
    }
}

/// One message of a chat on its way into the history.
pub struct ChatHistoryEntry<'a> {
    pub message_id: Option<String>,
    pub conversation_id: &'a str,
    pub sender_display_name: &'a str,
    pub peer_display_name: &'a str,
    pub direction: MessageDirection,
    pub status: MessageStatus,
    pub protocol_counter: Option<u64>,
    pub ciphertext: &'a [u8],
    pub plaintext: &'a str,
}

/// The contents of a `ChatHistoryEntry`.
#[verifier::ext_equal]
pub struct EntryView {
    pub message_id: Option<Seq<char>>,
    pub conversation_id: Seq<char>,
    pub sender_display_name: Seq<char>,
    pub peer_display_name: Seq<char>,
    pub direction: MessageDirection,
    pub status: MessageStatus,
    pub protocol_counter: Option<u64>,
    pub ciphertext: Seq<u8>,
    pub plaintext: Seq<char>,
}

impl<'a> View for ChatHistoryEntry<'a> {
    type V = EntryView;

    open spec fn view(&self) -> EntryView {
        EntryView {
            message_id: option_view(self.message_id),
            conversation_id: self.conversation_id@,
            sender_display_name: self.sender_display_name@,
            peer_display_name: self.peer_display_name@,
            direction: self.direction,
            status: self.status,
            protocol_counter: self.protocol_counter,
            ciphertext: self.ciphertext@,
            plaintext: self.plaintext@,
        }
    }
}

impl EntryView {
    /// The id under which the message enters the history.
    pub open spec fn id(self) -> Seq<char> {
        match self.message_id {
            Some(id) => id,
            None => history_id(
                self.conversation_id,
                self.direction,
                self.protocol_counter,
                self.ciphertext,
            ),
        }
    }

    /// The message as the history keeps it.
    pub open spec fn row(self, now: u64) -> MessageRow {
        MessageRow {
            message_id: self.id(),
            conversation_id: self.conversation_id,
            sender_id: match self.direction {
                MessageDirection::Sent => shown_name("you"@),
                MessageDirection::Received => shown_name(self.sender_display_name),
            },
            recipient_id: match self.direction {
                MessageDirection::Sent => shown_name(self.peer_display_name),
                MessageDirection::Received => shown_name("you"@),
            },
            direction: self.direction,
            status: self.status,
            protocol_counter: self.protocol_counter,
            ciphertext: self.ciphertext,
            plaintext: Some(self.plaintext),
            created_at_unix_secs: now,
        }
    }
}

/// The order of the messages that wait: time, then id.
pub type PendingOrder = (u64, String);

/// The place of a message among those that wait for a peer.
pub open spec fn pending_place(peer: Seq<char>) -> spec_fn(PendingRow) -> Option<(u64, Seq<char>)> {
    |message: PendingRow|
        if message.peer_id == peer {
            Some((stored_rank(message.created_at_unix_secs), message.message_id))
        } else {
            None
        }
}

/// Everything that a client keeps for its chats.
pub struct Profile {
    pub storage: Storage,
    pub known_peers: SortedMap<String, KnownPeerRecord>,
    pub pending: SortedMap<String, PendingPeerMessage>,
}

#[verifier::ext_equal]
pub struct ProfileView {
    pub storage: StorageView,
    pub known_peers: Map<Seq<char>, KnownPeerRow>,
    pub pending: Map<Seq<char>, PendingRow>,
}

impl View for Profile {
    type V = ProfileView;

    open spec fn view(&self) -> ProfileView {
        ProfileView {
            storage: self.storage@,
            known_peers: self.known_peers@,
            pending: self.pending@,
        }
    }
}

/// Every message that waits stands under its own id.
pub open spec fn pending_keyed(pending: Map<Seq<char>, PendingRow>) -> bool {
    forall|id: Seq<char>| #[trigger] pending.contains_key(id) ==> pending[id].message_id == id
}

impl ProfileView {
    pub open spec fn with_known_peer(self, peer: KnownPeerRow) -> ProfileView {
        ProfileView { known_peers: self.known_peers.insert(peer.conversation_id, peer), ..self }
    }

    /// A message with a new id is added to those that wait; a known id changes nothing.
    pub open spec fn with_pending(self, message: PendingRow) -> ProfileView {
        if self.pending.contains_key(message.message_id) {
            self
        } else {
            ProfileView { pending: self.pending.insert(message.message_id, message), ..self }
        }
    }

    pub open spec fn with_attempt(self, message_id: Seq<char>, now: u64) -> ProfileView {
        if self.pending.contains_key(message_id) {
            let message = self.pending[message_id];
            let row = PendingRow {
                retry_count: if message.retry_count < u64::MAX {
                    (message.retry_count + 1) as u64
                } else {
                    u64::MAX
                },
                last_attempt_unix_secs: Some(now),
                ..message
            };
            ProfileView { pending: self.pending.insert(message_id, row), ..self }
        } else {
            self
        }
    }

    pub open spec fn without_pending(self, message_id: Seq<char>) -> ProfileView {
        ProfileView { pending: self.pending.remove(message_id), ..self }
    }

    /// The profile after the peer has confirmed a message.
    pub open spec fn with_delivery(self, message_id: Seq<char>) -> ProfileView {
        ProfileView {
            storage: self.storage.with_message_status(message_id, MessageStatus::Sent),
            ..self.without_pending(message_id)
        }
    }

    pub open spec fn with_storage(self, storage: StorageView) -> ProfileView {
        ProfileView { storage, ..self }
    }

    pub open spec fn with_history(self, entry: EntryView, now: u64) -> ProfileView {
        self.with_storage(self.storage.with_message(entry.row(now)))
    }

    /// The id under which messages for the peer of a conversation wait.
    pub open spec fn pending_peer(self, conversation: Seq<char>) -> Seq<char> {
        if self.known_peers.contains_key(conversation) {
            self.known_peers[conversation].peer_id
        } else {
            conversation
        }
    }

    /// The peer of a conversation: the known one, or the one that a contact with an
    /// identity key stands for.
    pub open spec fn peer_of(self, conversation: Seq<char>) -> Option<KnownPeerRow> {
        if self.known_peers.contains_key(conversation) {
            Some(self.known_peers[conversation])
        } else if self.storage.contacts.contains_key(conversation)
            && self.storage.contacts[conversation].identity_public_key.len() == 32 {
            let contact = self.storage.contacts[conversation];
            Some(
                KnownPeerRow {
                    peer_id: contact_of_identity(contact.identity_public_key),
                    identity_public_key: contact.identity_public_key,
                    display_name: contact.display_name,
                    conversation_id: contact.contact_id,
                    last_seen_at_unix_secs: contact.saved_at_unix_secs,
                },
            )
        } else {
            None
        }
    }

    /// The profile after a message was kept for a peer that is away.
    pub open spec fn with_offline_message(
        self,
        peer: KnownPeerRow,
        message_id: Seq<char>,
        plaintext: Seq<char>,
        now: u64,
    ) -> ProfileView {
        let waiting = self.with_pending(
            PendingRow {
                message_id,
                peer_id: peer.peer_id,
                conversation_id: peer.conversation_id,
                plaintext,
                created_at_unix_secs: now,
                retry_count: 0,
                last_attempt_unix_secs: None,
            },
        );
        waiting.with_storage(
            waiting.storage.with_message(
                MessageRow {
                    message_id,
                    conversation_id: peer.conversation_id,
                    sender_id: "you"@,
                    recipient_id: peer.display_name,
                    direction: MessageDirection::Sent,
                    status: MessageStatus::Stored,
                    protocol_counter: None,
                    ciphertext: utf8(plaintext),
                    plaintext: Some(plaintext),
                    created_at_unix_secs: now,
                },
            ),
        )
    }

    /// The profile after a contact was saved with what is known of its identity.
    pub open spec fn with_chat_contact(
        self,
        contact_id: Seq<char>,
        display_name: Seq<char>,
        identity: Seq<u8>,
        hint: Seq<char>,
        now: u64,
    ) -> ProfileView {
        let saved = self.with_storage(
            self.storage.with_contact(
                ContactRow {
                    contact_id,
                    display_name: shown_name(display_name),
                    identity_public_key: identity,
                    discovery_hint: hint,
                    saved_at_unix_secs: now,
                },
            ),
        );
        if identity.len() == 32 {
            saved.with_known_peer(
                KnownPeerRow {
                    peer_id: contact_of_identity(identity),
                    identity_public_key: identity,
                    display_name: shown_name(display_name),
                    conversation_id: contact_id,
                    last_seen_at_unix_secs: now,
                },
            )
        } else {
            saved
        }
    }
}

/// Thirty-two bytes as a key.
pub fn as_key(bytes: &[u8]) -> (key: Option<[u8; 32]>)
    ensures
        match key {
            Some(key) => key@ == bytes@ && bytes@.len() == 32,
            None => bytes@.len() != 32,
        },
{
    if bytes.len() != 32 {
        return None;
    }
    let key = crate::bytes::take_32(bytes, 0);
    assert(bytes@.subrange(0, 32) =~= bytes@);
    Some(key)
}

impl Profile {
    pub open spec fn wf(&self) -> bool {
        &&& self.storage.wf()
        &&& self.known_peers.wf()
        &&& self.pending.wf()
        &&& pending_keyed(self.pending@)
    }

    /// A profile that holds nothing.
    pub fn open_in_memory() -> (profile: Profile)
        ensures
            profile.wf(),
            profile@.storage == StorageView::nothing(),
            profile@.known_peers == Map::<Seq<char>, KnownPeerRow>::empty(),
            profile@.pending == Map::<Seq<char>, PendingRow>::empty(),
    {
        Profile {
            storage: Storage::open_in_memory(),
            known_peers: SortedMap::new(),
            pending: SortedMap::new(),
        }
    }

    pub fn save_known_peer(&mut self, peer: &KnownPeerRecord)
        requires
            old(self).wf(),
        ensures
            final(self).wf(),
            final(self)@ == old(self)@.with_known_peer(peer@),
    {
        self.known_peers.insert(peer.conversation_id.clone(), peer.duplicate());
    }

    pub fn known_peer_for_conversation(&self, conversation_id: &str) -> (peer: Option<
        KnownPeerRecord,
    >)
        requires
            self.wf(),
        ensures
            match peer {
                Some(peer) => self@.known_peers.contains_key(conversation_id@) && peer@
                    == self@.known_peers[conversation_id@],
                None => !self@.known_peers.contains_key(conversation_id@),
            },
    {
        match self.known_peers.get(&copy_text(conversation_id)) {
            Some(peer) => Some(peer.duplicate()),
            None => None,
        }
    }

    /// The peer of a conversation, also where only its contact is kept.
    pub fn load_known_peer_for_conversation(&self, conversation_id: &str) -> (peer: Option<
        KnownPeerRecord,
    >)
        requires
            self.wf(),
        ensures
            match peer {
                Some(peer) => self@.peer_of(conversation_id@) == Some(peer@),
                None => self@.peer_of(conversation_id@) is None,
            },
    {
        if let Some(peer) = self.known_peer_for_conversation(conversation_id) {
            return Some(peer);
        }
        let contact = match self.storage.load_contact(conversation_id) {
            Some(contact) => contact,
            None => {
                return None;
            },
        };
        match as_key(contact.identity_public_key.as_slice()) {
            None => None,
            Some(identity) => Some(
                KnownPeerRecord {
                    peer_id: contact_id_for_identity(&identity),
                    identity_public_key: contact.identity_public_key,
                    display_name: contact.display_name,
                    conversation_id: contact.contact_id,
                    last_seen_at_unix_secs: contact.saved_at_unix_secs,
                },
            ),
        }
    }

    /// Keeps a message until its peer has confirmed it, unless one with its id is kept.
    pub fn queue_pending_peer_message(&mut self, message: &PendingPeerMessage)
        requires
            old(self).wf(),
        ensures
            final(self).wf(),
            final(self)@ == old(self)@.with_pending(message@),
    {
        if !self.pending.contains_key(&message.message_id) {
            self.pending.insert(message.message_id.clone(), message.duplicate());
        }
    }

    /// The messages that wait for a peer, the oldest first.
    pub fn pending_peer_messages_for_peer(&self, peer_id: &str) -> (messages: Vec<
        PendingPeerMessage,
    >)
        requires
            self.wf(),
        ensures
            is_selection::<Seq<char>, PendingRow, PendingOrder>(
                views(messages@),
                self@.pending,
                pending_place(peer_id@),
            ),
    {
        let place = |message: &PendingPeerMessage| -> (place: Option<PendingOrder>)
            ensures
                option_view(place) == pending_place(peer_id@)(message@),
            {
                if same_text(message.peer_id.as_str(), peer_id) {
                    Some((rank_stored(message.created_at_unix_secs), message.message_id.clone()))
                } else {
                    None
                }
            };
        select(&self.pending, place, Ghost(pending_place(peer_id@)))
    }

    /// How many messages wait in a conversation.
    pub fn pending_count(&self, conversation_id: &str) -> (count: usize)
        requires
            self.wf(),
        ensures
            count == keys_where(
                self@.pending,
                |message: PendingRow| message.conversation_id == conversation_id@,
            ).len(),
    {
        let waits = |message: &PendingPeerMessage| -> (answer: bool)
            ensures
                answer == (message@.conversation_id == conversation_id@),
            { same_text(message.conversation_id.as_str(), conversation_id) };
        count_where(
            &self.pending,
            waits,
            Ghost(|message: PendingRow| message.conversation_id == conversation_id@),
        )
    }

    /// Counts an attempt to deliver a message that waits.
    pub fn record_pending_peer_message_attempt(&mut self, message_id: &str, now: u64)
        requires
            old(self).wf(),
        ensures
            final(self).wf(),
            final(self)@ == old(self)@.with_attempt(message_id@, now),
    {
        let key = copy_text(message_id);
        let updated = match self.pending.get(&key) {
            Some(message) => {
                let mut message = message.duplicate();
                message.retry_count = if message.retry_count < u64::MAX {
                    message.retry_count + 1
                } else {
                    u64::MAX
                };
                message.last_attempt_unix_secs = Some(now);
                message
            },
            None => {
                return;
            },
        };
        self.pending.insert(key, updated);
    }

    pub fn remove_pending_peer_message(&mut self, message_id: &str)
        requires
            old(self).wf(),
        ensures
            final(self).wf(),
            final(self)@ == old(self)@.without_pending(message_id@),
    {
        self.pending.remove(&copy_text(message_id));
    }

    /// The peer has confirmed a message: it no longer waits, and counts as sent.
    pub fn mark_delivered_if_pending(&mut self, message_id: &str)
        requires
            old(self).wf(),
        ensures
            final(self).wf(),
            final(self)@ == old(self)@.with_delivery(message_id@),
    {
        self.remove_pending_peer_message(message_id);
        self.storage.update_message_status(message_id, MessageStatus::Sent);
    }

    /// The id under which messages for the peer of a conversation wait.
    pub fn pending_peer_id_for_conversation(&self, conversation_id: &str) -> (peer_id: String)
        requires
            self.wf(),
        ensures
            peer_id@ == self@.pending_peer(conversation_id@),
    {
        match self.known_peers.get(&copy_text(conversation_id)) {
            Some(peer) => peer.peer_id.clone(),
            None => copy_text(conversation_id),
        }
    }

    /// Keeps a message that was sent until its peer has confirmed it.
    pub fn track_pending_chat_delivery(
        &mut self,
        conversation_id: &str,
        message_id: &str,
        plaintext: &str,
        now: u64,
    )
        requires
            old(self).wf(),
        ensures
            final(self).wf(),
            final(self)@ == old(self)@.with_pending(
                PendingRow {
                    message_id: message_id@,
                    peer_id: old(self)@.pending_peer(conversation_id@),
                    conversation_id: conversation_id@,
                    plaintext: plaintext@,
                    created_at_unix_secs: now,
                    retry_count: 0,
                    last_attempt_unix_secs: None,
                },
            ),
    {
        let peer_id = self.pending_peer_id_for_conversation(conversation_id);
        self.queue_pending_peer_message(
            &PendingPeerMessage {
                message_id: copy_text(message_id),
                peer_id,
                conversation_id: copy_text(conversation_id),
                plaintext: copy_text(plaintext),
                created_at_unix_secs: now,
                retry_count: 0,
                last_attempt_unix_secs: None,
            },
        );
    }

    /// Keeps a message for a peer that is away, and shows it in the history.
    pub fn queue_offline_peer_message(
        &mut self,
        peer: &KnownPeerRecord,
        message_id: &str,
        plaintext: &str,
        now: u64,
    )
        requires
            old(self).wf(),
        ensures
            final(self).wf(),
            final(self)@ == old(self)@.with_offline_message(
                peer@,
                message_id@,
                plaintext@,
                now,
            ),
    {
        self.queue_pending_peer_message(
            &PendingPeerMessage {
                message_id: copy_text(message_id),
                peer_id: peer.peer_id.clone(),
                conversation_id: peer.conversation_id.clone(),
                plaintext: copy_text(plaintext),
                created_at_unix_secs: now,
                retry_count: 0,
                last_attempt_unix_secs: None,
            },
        );
        self.storage.insert_message(
            &MessageRecord {
                message_id: copy_text(message_id),
                conversation_id: peer.conversation_id.clone(),
                sender_id: copy_text("you"),
                recipient_id: peer.display_name.clone(),
                direction: MessageDirection::Sent,
                status: MessageStatus::Stored,
                protocol_counter: None,
                ciphertext: copy_bytes(plaintext.as_bytes()),
                plaintext: Some(copy_text(plaintext)),
                created_at_unix_secs: now,
            },
        );
    }

    /// Keeps a message for the peer of a chat that has gone away.
    pub fn queue_message_after_peer_disconnect(
        &mut self,
        conversation_id: &str,
        remote_display_name: &str,
        message_id: &str,
        plaintext: &str,
        now: u64,
    )
        requires
            old(self).wf(),
        ensures
            final(self).wf(),
            final(self)@ == old(self)@.with_offline_message(
                KnownPeerRow {
                    peer_id: old(self)@.pending_peer(conversation_id@),
                    identity_public_key: Seq::empty(),
                    display_name: shown_name(remote_display_name@),
                    conversation_id: conversation_id@,
                    last_seen_at_unix_secs: now,
                },
                message_id@,
                plaintext@,
                now,
            ),
    {
        let peer = KnownPeerRecord {
            peer_id: self.pending_peer_id_for_conversation(conversation_id),
            identity_public_key: Vec::new(),
            display_name: display_name_or_anonymous(remote_display_name),
            conversation_id: copy_text(conversation_id),
            last_seen_at_unix_secs: now,
        };
        self.queue_offline_peer_message(&peer, message_id, plaintext, now);
    }

    /// Saves the other side of a chat as a contact, and as a known peer where its identity
    /// key is known.
    pub fn save_contact_for_chat(
        &mut self,
        contact_id: &str,
        display_name: &str,
        identity_public_key: &[u8],
        discovery_hint: &str,
        now: u64,
    )
        requires
            old(self).wf(),
        ensures
            final(self).wf(),
            final(self)@ == old(self)@.with_chat_contact(
                contact_id@,
                display_name@,
                identity_public_key@,
                discovery_hint@,
                now,
            ),
    {
        let display_name = display_name_or_anonymous(display_name);
        self.storage.save_contact(
            &ContactRecord {
                contact_id: copy_text(contact_id),
                display_name: display_name.clone(),
                identity_public_key: copy_bytes(identity_public_key),
                discovery_hint: copy_text(discovery_hint),
                saved_at_unix_secs: now,
            },
        );
        if let Some(identity) = as_key(identity_public_key) {
            self.save_known_peer(
                &KnownPeerRecord {
                    peer_id: contact_id_for_identity(&identity),
                    identity_public_key: copy_bytes(identity_public_key),
                    display_name,
                    conversation_id: copy_text(contact_id),
                    last_seen_at_unix_secs: now,
                },
            );
        }
    }

    /// Adds a message of a chat to the history, unless one with its id is there.
    pub fn persist_chat_message(&mut self, entry: ChatHistoryEntry<'_>, now: u64)
        requires
            old(self).wf(),
        ensures
            final(self).wf(),
            final(self)@ == old(self)@.with_history(entry@, now),
    {
        let message_id = match &entry.message_id {
            Some(id) => id.clone(),
            None => chat_message_id(
                entry.conversation_id,
                &entry.direction,
                entry.protocol_counter,
                entry.ciphertext,
            ),
        };
        let (sender, recipient) = match entry.direction {
            MessageDirection::Sent => ("you", entry.peer_display_name),
            MessageDirection::Received => (entry.sender_display_name, "you"),
        };
        self.storage.insert_message(
            &MessageRecord {
                message_id,
                conversation_id: copy_text(entry.conversation_id),
                sender_id: display_name_or_anonymous(sender),
                recipient_id: display_name_or_anonymous(recipient),
                direction: entry.direction,
                status: entry.status,
                protocol_counter: entry.protocol_counter,
                ciphertext: copy_bytes(entry.ciphertext),
                plaintext: Some(copy_text(entry.plaintext)),
                created_at_unix_secs: now,
            },
        );
    }

    /// The latest chats, at most `limit` of them.
    pub fn recent_chat_summaries(&self, limit: usize) -> (summaries: Vec<ChatSummary>)
        requires
            self.wf(),
        ensures
            is_page(self@.storage, summaries@, limit as int, 0),
    {
        self.chat_summaries_page(limit, 0)
    }

    /// How many chats there are.
    pub fn chat_summary_count(&self) -> (count: usize)
        requires
            self.wf(),
        ensures
            exists|all: Seq<ChatSummary>|
                is_summaries(self@.storage, all) && #[trigger] all.len() == count,
    {
        self.storage.chat_summaries().len()
    }

    /// The chats from a place on, the latest first, at most `limit` of them.
    pub fn chat_summaries_page(&self, limit: usize, offset: usize) -> (summaries: Vec<ChatSummary>)
        requires
            self.wf(),
        ensures
            is_page(self@.storage, summaries@, limit as int, offset as int),
    {
        let mut all = self.storage.chat_summaries();
        let ghost listed = all@;
        if offset >= all.len() {
            let none: Vec<ChatSummary> = Vec::new();
            assert(is_summaries(self@.storage, listed));
            assert(none@ =~= page_of(listed, limit as int, offset as int));
            return none;
        }
        let mut page = all.split_off(offset);
        if page.len() > limit {
            page.truncate(limit);
        }
        assert(is_summaries(self@.storage, listed));
        assert(page@ =~= page_of(listed, limit as int, offset as int));
        page
    }
}

/// Whether `summaries` are all the chats, the latest first.
pub open spec fn is_summaries(storage: StorageView, summaries: Seq<ChatSummary>) -> bool {
    &&& is_selection::<Seq<char>, ContactRow, crate::storage::ContactOrder>(
        summaries.map_values(|summary: ChatSummary| summary.contact@),
        storage.contacts,
        crate::storage::contact_place(),
    )
    &&& forall|i: int|
        0 <= i < summaries.len() ==> crate::storage::is_last_message(
            option_view((#[trigger] summaries[i]).last_message),
            storage.messages,
            summaries[i].contact@.contact_id,
        )
}

/// The entries of a list from a place on, at most `limit` of them.
pub open spec fn page_of<T>(all: Seq<T>, limit: int, offset: int) -> Seq<T> {
    if offset >= all.len() {
        Seq::empty()
    } else if offset + limit <= all.len() {
        all.subrange(offset, offset + limit)
    } else {
        all.skip(offset)
    }
}

/// Whether `page` holds the chats from a place on, at most `limit` of them.
pub open spec fn is_page(
    storage: StorageView,
    page: Seq<ChatSummary>,
    limit: int,
    offset: int,
) -> bool {
    exists|all: Seq<ChatSummary>|
        is_summaries(storage, all) && page == #[trigger] page_of(all, limit, offset)
}

/// The two kinds of party that a chat can be led by.
pub trait ChatParty: Sized {
    type Keys;

    /// The party's session, if it has one.
    spec fn session(&self) -> Option<SessionView>;

    /// What a party consists of besides its session.
    spec fn keys(&self) -> Self::Keys;

    /// Whether `bytes` are what the party is stored as, and it is restored from them as it
    /// is.
    spec fn is_stored_as(&self, bytes: Seq<u8>) -> bool;

    /// The name under which a profile keeps the party.
    spec fn slot() -> Seq<char>;

    fn slot_name() -> (name: &'static str)
        ensures
            name@ == Self::slot(),
    ;

    fn store(&self) -> (bytes: Vec<u8>)
        ensures
            self.is_stored_as(bytes@),
    ;

    /// Whether the party's counter can count one more message.
    fn can_send(&self) -> (answer: bool)
        ensures
            answer == (self.session() matches Some(session) ==> session.can_send()),
    ;

    fn encrypt(&mut self, text: &str) -> (sent: Result<RatchetMessage, CryptoError>)
        requires
            old(self).session() matches Some(session) ==> session.can_send(),
            !aead_overruns(utf8(text@).len() as int),
        ensures
            final(self).keys() == old(self).keys(),
            old(self).session() is None ==> final(self).session() is None && sent == Err::<
                RatchetMessage,
                CryptoError,
            >(CryptoError::MissingSessionKey),
            old(self).session() matches Some(session) ==> {
                &&& final(self).session() == Some(session.send_advanced())
                &&& sent is Err <==> utf8(text@).len() >= 64 * 0xffff_ffff
                &&& sent matches Err(error) ==> error == CryptoError::Encrypt
                &&& sent matches Ok(sent) ==> is_sent(session, sent@, text@)
            },
    ;

    fn decrypt(&mut self, message: &RatchetMessage) -> (text: Result<String, CryptoError>)
        requires
            old(self).session() matches Some(session) ==> session.can_receive(message@),
            !aead_overruns(message.ciphertext@.len() - 16),
        ensures
            final(self).keys() == old(self).keys(),
            old(self).session() is None ==> final(self).session() is None && text == Err::<
                String,
                CryptoError,
            >(CryptoError::MissingSessionKey),
            old(self).session() matches Some(session) ==> {
                &&& final(self).session() == Some(session.receiving(message@).0)
                &&& crate::party::is_read(text, session.receiving(message@).1)
            },
    ;
}

impl ChatParty for Alice {
    type Keys = AliceView;

    open spec fn session(&self) -> Option<SessionView> {
        self@.session
    }

    open spec fn keys(&self) -> AliceView {
        AliceView { session: None, ..self@ }
    }

    open spec fn is_stored_as(&self, bytes: Seq<u8>) -> bool {
        is_alice_form(bytes, self@)
    }

    open spec fn slot() -> Seq<char> {
        "alice"@
    }

    fn slot_name() -> (name: &'static str) {
        "alice"
    }

    fn store(&self) -> (bytes: Vec<u8>) {
        store_alice(self)
    }

    fn can_send(&self) -> (answer: bool) {
        match self.session_state() {
            Some(state) => state.send_count < u64::MAX,
            None => true,
        }
    }

    fn encrypt(&mut self, text: &str) -> (sent: Result<RatchetMessage, CryptoError>) {
        self.encrypt_for_bob(text)
    }

    fn decrypt(&mut self, message: &RatchetMessage) -> (text: Result<String, CryptoError>) {
        self.decrypt_from_bob(message)
    }
}

impl ChatParty for Bob {
    type Keys = BobView;

    open spec fn session(&self) -> Option<SessionView> {
        self@.session
    }

    open spec fn keys(&self) -> BobView {
        BobView { session: None, ..self@ }
    }

    open spec fn is_stored_as(&self, bytes: Seq<u8>) -> bool {
        is_bob_form(bytes, self@)
    }

    open spec fn slot() -> Seq<char> {
        "bob"@
    }

    fn slot_name() -> (name: &'static str) {
        "bob"
    }

    fn store(&self) -> (bytes: Vec<u8>) {
        store_bob(self)
    }

    fn can_send(&self) -> (answer: bool) {
        match self.session_state() {
            Some(state) => state.send_count < u64::MAX,
            None => true,
        }
    }

    fn encrypt(&mut self, text: &str) -> (sent: Result<RatchetMessage, CryptoError>) {
        self.encrypt_for_alice(text)
    }

    fn decrypt(&mut self, message: &RatchetMessage) -> (text: Result<String, CryptoError>) {
        self.decrypt_from_alice(message)
    }
}

/// A message of a chat as it is sent.
pub open spec fn chat_frame(
    message_id: Seq<char>,
    sender: Seq<char>,
    message: MessageView,
) -> Seq<u8> {
    ChatFrame::encoded(FrameView::Message { message_id, sender_display_name: sender, message })
}

/// Whether a frame carries a message of a chat, and is read as that.
pub open spec fn is_frame_of(
    frame: Seq<u8>,
    message_id: Seq<char>,
    sender: Seq<char>,
    message: MessageView,
) -> bool {
    &&& frame == chat_frame(message_id, sender, message)
    &&& is_form_of::<ChatFrame>(
        frame,
        FrameView::Message { message_id, sender_display_name: sender, message },
    )
}

/// The id of a message of a chat: the one it has, or the one that its contents give.
pub open spec fn outgoing_id(
    existing: Option<Seq<char>>,
    conversation: Seq<char>,
    message: MessageView,
) -> Seq<char> {
    match existing {
        Some(id) => id,
        None => history_id(
            conversation,
            MessageDirection::Sent,
            Some(message.number),
            RatchetMessage::encoded(message),
        ),
    }
}

/// A sent message of a chat on its way into the history.
pub open spec fn outgoing_entry(
    message_id: Seq<char>,
    conversation: Seq<char>,
    local_name: Seq<char>,
    remote_name: Seq<char>,
    frame: Seq<u8>,
    plaintext: Seq<char>,
) -> EntryView {
    EntryView {
        message_id: Some(message_id),
        conversation_id: conversation,
        sender_display_name: local_name,
        peer_display_name: remote_name,
        direction: MessageDirection::Sent,
        status: MessageStatus::Sent,
        protocol_counter: None,
        ciphertext: frame,
        plaintext,
    }
}

/// A received message of a chat on its way into the history.
pub open spec fn incoming_entry(
    message_id: Seq<char>,
    conversation: Seq<char>,
    sender_name: Seq<char>,
    local_name: Seq<char>,
    number: u64,
    frame: Seq<u8>,
    plaintext: Seq<char>,
) -> EntryView {
    EntryView {
        message_id: Some(message_id),
        conversation_id: conversation,
        sender_display_name: sender_name,
        peer_display_name: local_name,
        direction: MessageDirection::Received,
        status: MessageStatus::Received,
        protocol_counter: Some(number),
        ciphertext: frame,
        plaintext,
    }
}

/// What names the two sides of a chat.
pub struct ChatNames<'a> {
    pub local_display_name: &'a str,
    pub remote_display_name: &'a str,
    pub conversation_id: &'a str,
}

impl Profile {
    /// Keeps the party of a chat as it is now.
    pub fn keep_party<P: ChatParty>(&mut self, party: &P, now: u64)
        requires
            old(self).wf(),
        ensures
            final(self).wf(),
            exists|state: Seq<u8>| #[trigger]
                party.is_stored_as(state) && final(self)@ == old(self)@.with_storage(
                    old(self)@.storage.with_local_identity(P::slot(), P::slot(), state, now),
                ),
    {
        let state = party.store();
        self.storage.save_local_identity_at(P::slot_name(), P::slot_name(), state.as_slice(), now);
        assert(party.is_stored_as(state@));
    }

    /// Writes an encrypted message into a frame and into the history.
    pub fn prepare_outgoing_frame(
        &mut self,
        message: RatchetMessage,
        names: &ChatNames<'_>,
        plaintext: &str,
        existing_message_id: Option<String>,
        now: u64,
    ) -> (prepared: (String, Vec<u8>))
        requires
            old(self).wf(),
        ensures
            final(self).wf(),
            prepared.0@ == outgoing_id(
                option_view(existing_message_id),
                names.conversation_id@,
                message@,
            ),
            is_frame_of(prepared.1@, prepared.0@, names.local_display_name@, message@),
            final(self)@ == old(self)@.with_history(
                outgoing_entry(
                    prepared.0@,
                    names.conversation_id@,
                    names.local_display_name@,
                    names.remote_display_name@,
                    prepared.1@,
                    plaintext@,
                ),
                now,
            ),
    {
        let message_bytes = encode(&message);
        let message_id = match existing_message_id {
            Some(id) => id,
            None => chat_message_id(
                names.conversation_id,
                &MessageDirection::Sent,
                Some(message.number),
                message_bytes.as_slice(),
            ),
        };
        let frame = ChatFrame::Message {
            message_id: message_id.clone(),
            sender_display_name: copy_text(names.local_display_name),
            message,
        };
        let bytes = encode(&frame);
        self.persist_chat_message(
            ChatHistoryEntry {
                message_id: Some(message_id.clone()),
                conversation_id: names.conversation_id,
                sender_display_name: names.local_display_name,
                peer_display_name: names.remote_display_name,
                direction: MessageDirection::Sent,
                status: MessageStatus::Sent,
                protocol_counter: None,
                ciphertext: bytes.as_slice(),
                plaintext,
            },
            now,
        );
        (message_id, bytes)
    }

    /// Encrypts a line of a chat and writes it into a frame and into the history. The party
    /// is kept as it is after the encryption, before anything is sent.
    pub fn prepare_frame<P: ChatParty>(
        &mut self,
        party: &mut P,
        names: &ChatNames<'_>,
        plaintext: &str,
        existing_message_id: Option<String>,
        now: u64,
    ) -> (prepared: Result<(String, Vec<u8>), CryptoError>)
        requires
            old(self).wf(),
            old(party).session() matches Some(session) ==> session.can_send(),
            !aead_overruns(utf8(plaintext@).len() as int),
        ensures
            final(self).wf(),
            final(party).keys() == old(party).keys(),
            old(party).session() is None ==> {
                &&& final(party).session() is None
                &&& final(self)@ == old(self)@
                &&& prepared == Err::<(String, Vec<u8>), CryptoError>(
                    CryptoError::MissingSessionKey,
                )
            },
            old(party).session() matches Some(session) ==> {
                &&& final(party).session() == Some(session.send_advanced())
                &&& prepared is Err <==> utf8(plaintext@).len() >= 64 * 0xffff_ffff
                &&& prepared matches Err(error) ==> error == CryptoError::Encrypt && final(self)@
                    == old(self)@
                &&& prepared matches Ok((id, bytes)) ==> exists|
                    message: MessageView,
                    state: Seq<u8>,
                |
                    #![trigger is_sent(session, message, plaintext@), final(party).is_stored_as(
                        state,
                    )]
                    {
                        &&& is_sent(session, message, plaintext@)
                        &&& final(party).is_stored_as(state)
                        &&& id@ == outgoing_id(
                            option_view(existing_message_id),
                            names.conversation_id@,
                            message,
                        )
                        &&& is_frame_of(bytes@, id@, names.local_display_name@, message)
                        &&& final(self)@ == old(self)@.with_storage(
                            old(self)@.storage.with_local_identity(
                                P::slot(),
                                P::slot(),
                                state,
                                now,
                            ),
                        ).with_history(
                            outgoing_entry(
                                id@,
                                names.conversation_id@,
                                names.local_display_name@,
                                names.remote_display_name@,
                                bytes@,
                                plaintext@,
                            ),
                            now,
                        )
                    }
            },
    {
        let message = match party.encrypt(plaintext) {
            Ok(message) => message,
            Err(error) => {
                return Err(error);
            },
        };
        let ghost sent = message@;
        let state = party.store();
        self.storage.save_local_identity_at(P::slot_name(), P::slot_name(), state.as_slice(), now);
        let prepared = self.prepare_outgoing_frame(
            message,
            names,
            plaintext,
            existing_message_id,
            now,
        );
        proof {
            let session = old(party).session()->0;
            assert(is_sent(session, sent, plaintext@));
            assert(party.is_stored_as(state@));
        }
        Ok(prepared)
    }

    /// Reads a message of a chat that came in a frame, unless it is in the history. A new
    /// message enters the history and is marked as accepted, and the party is kept where
    /// that is asked for. Answers with the text of a new message.
    pub fn receive_message<P: ChatParty>(
        &mut self,
        party: &mut P,
        names: &ChatNames<'_>,
        message_id: &str,
        sender_display_name: &str,
        message: &RatchetMessage,
        frame: &[u8],
        keep: bool,
        now: u64,
    ) -> (read: Result<Option<String>, CryptoError>)
        requires
            old(self).wf(),
            old(party).session() matches Some(session) ==> session.can_receive(message@),
            !aead_overruns(message.ciphertext@.len() - 16),
        ensures
            final(self).wf(),
            old(self)@.storage.messages.contains_key(message_id@) ==> {
                &&& *final(party) == *old(party)
                &&& final(self)@ == old(self)@
                &&& read == Ok::<Option<String>, CryptoError>(None)
            },
            !old(self)@.storage.messages.contains_key(message_id@) ==> {
                &&& final(party).keys() == old(party).keys()
                &&& old(party).session() is None ==> {
                    &&& final(party).session() is None
                    &&& final(self)@ == old(self)@
                    &&& read == Err::<Option<String>, CryptoError>(CryptoError::MissingSessionKey)
                }
                &&& old(party).session() matches Some(session) ==> {
                    &&& final(party).session() == Some(session.receiving(message@).0)
                    &&& match session.receiving(message@).1 {
                        Err(error) => {
                            &&& read == Err::<Option<String>, CryptoError>(error)
                            &&& final(self)@ == old(self)@
                        },
                        Ok(text) => {
                            &&& read matches Ok(Some(shown)) && shown@ == text
                            &&& exists|state: Seq<u8>| #[trigger]
                                final(party).is_stored_as(state) && final(self)@ == old(
                                    self,
                                )@.with_received(
                                    if keep {
                                        Some((P::slot(), state))
                                    } else {
                                        None
                                    },
                                    incoming_entry(
                                        message_id@,
                                        names.conversation_id@,
                                        sender_display_name@,
                                        names.local_display_name@,
                                        message@.number,
                                        frame@,
                                        text,
                                    ),
                                    now,
                                )
                        },
                    }
                }
            },
    {
        if self.storage.message_exists(message_id) {
            return Ok(None);
        }
        let plaintext = match party.decrypt(message) {
            Ok(plaintext) => plaintext,
            Err(error) => {
                return Err(error);
            },
        };
        let state = party.store();
        if keep {
            self.storage.save_local_identity_at(
                P::slot_name(),
                P::slot_name(),
                state.as_slice(),
                now,
            );
        }
        self.persist_chat_message(
            ChatHistoryEntry {
                message_id: Some(copy_text(message_id)),
                conversation_id: names.conversation_id,
                sender_display_name,
                peer_display_name: names.local_display_name,
                direction: MessageDirection::Received,
                status: MessageStatus::Received,
                protocol_counter: Some(message.number),
                ciphertext: frame,
                plaintext: plaintext.as_str(),
            },
            now,
        );
        let _ = self.storage.accept_message_once_at(message_id, now);
        assert(party.is_stored_as(state@));
        Ok(Some(plaintext))
    }
}

impl ProfileView {
    /// The profile after a new message of a chat was read, and its party kept where `kept`
    /// says under which name and as what.
    pub open spec fn with_received(
        self,
        kept: Option<(Seq<char>, Seq<u8>)>,
        entry: EntryView,
        now: u64,
    ) -> ProfileView {
        let before = match kept {
            Some((slot, state)) => self.with_storage(
                self.storage.with_local_identity(slot, slot, state, now),
            ),
            None => self,
        };
        let read = before.with_history(entry, now);
        read.with_storage(read.storage.with_accepted(entry.id(), now))
    }
}

/// The lines that show a message of the history.
pub open spec fn shown_lines(message: MessageRow, display_name: Seq<char>) -> Seq<Seq<char>> {
    let body = match message.plaintext {
        Some(plaintext) => plaintext,
        None => "[encrypted]"@,
    };
    match message.direction {
        MessageDirection::Sent => seq![
            "You: "@ + body,
            "    "@ + (match message.status {
                MessageStatus::Stored => "sending..."@,
                MessageStatus::Sent => "sent"@,
                MessageStatus::Received => "delivered"@,
            }),
        ],
        MessageDirection::Received => seq![shown_name(display_name) + ": "@ + body],
    }
}

/// The lines that show a message of the history.
pub fn message_lines(message: &MessageRecord, display_name: &str) -> (lines: Vec<String>)
    ensures
        views(lines@) == shown_lines(message@, display_name@),
{
    let body = match &message.plaintext {
        Some(plaintext) => plaintext.clone(),
        None => copy_text("[encrypted]"),
    };
    let mut lines: Vec<String> = Vec::new();
    match message.direction {
        MessageDirection::Sent => {
            lines.push(joined("You: ", body.as_str()));
            lines.push(joined("    ", message_status_label(&message.status)));
        },
        MessageDirection::Received => {
            let name = joined(display_name_or_anonymous(display_name).as_str(), ": ");
            lines.push(joined(name.as_str(), body.as_str()));
        },
    }
    assert(views(lines@) =~= shown_lines(message@, display_name@));
    lines
}

/// A message that was sent waits until its peer confirms it, and from then on no longer.
pub proof fn law_delivery_waits_for_acknowledgement(
    profile: ProfileView,
    message: PendingRow,
    other: Seq<char>,
    now: u64,
)
    ensures
        profile.with_pending(message).pending.contains_key(message.message_id),
        other != message.message_id ==> profile.with_pending(message).with_delivery(
            other,
        ).pending.contains_key(message.message_id),
        profile.with_pending(message).with_attempt(other, now).pending.contains_key(
            message.message_id,
        ),
        !profile.with_pending(message).with_delivery(message.message_id).pending.contains_key(
            message.message_id,
        ),
{
}

/// A message that comes again is answered again, but neither the history nor the session
/// changes: the history has it from the first time on.
pub proof fn law_received_message_is_kept_once(
    profile: ProfileView,
    kept: Option<(Seq<char>, Seq<u8>)>,
    entry: EntryView,
    now: u64,
)
    ensures
        profile.with_received(kept, entry, now).storage.messages.contains_key(entry.id()),
        profile.with_received(kept, entry, now).storage.accepted.contains_key(entry.id()),
        profile.storage.messages.contains_key(entry.id()) ==> profile.with_received(
            kept,
            entry,
            now,
        ).storage.messages == profile.storage.messages,
{
}

/// What waits for a peer that is away is in the history as not yet sent, and counts as
/// sent once the peer has confirmed it.
pub proof fn law_offline_message_is_sent_later(
    profile: ProfileView,
    peer: KnownPeerRow,
    message_id: Seq<char>,
    plaintext: Seq<char>,
    now: u64,
)
    requires
        !profile.storage.messages.contains_key(message_id),
        !profile.pending.contains_key(message_id),
    ensures
        ({
            let waiting = profile.with_offline_message(peer, message_id, plaintext, now);
            let sent = waiting.with_delivery(message_id);
            &&& waiting.pending.contains_key(message_id)
            &&& waiting.storage.messages[message_id].status == MessageStatus::Stored
            &&& sent.storage.messages[message_id].status == MessageStatus::Sent
            &&& sent.storage.messages[message_id].plaintext == Some(plaintext)
            &&& !sent.pending.contains_key(message_id)
        }),
{
}

} // verus!
