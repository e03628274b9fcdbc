//! What a client keeps: its identities, sessions, history, outbox, contacts and invites.
//! The tables live in memory; whoever holds them decides where they are written down.

use crate::bytes::{append_bytes, copy_bytes, copy_text, same_text};
use crate::codec::{encode_bytes, encode_text, encoded_bytes, encoded_text};
use crate::history::{
    count_run, has_event, has_oversized, is_run, lemma_run, rank_stored, run, stored_rank,
    EventTable, Events, MAX_STORED,
};
use crate::primitives::clock_unix_secs;
use crate::records::copy_option_bytes;
use crate::sorted::{
    count_where, filtered, is_selection, keys_where, lists_keys, map_where, option_view, select,
    views, OrderedKey, Record, SortedMap,
};
use crate::text::{ascii_lowercase, lower};
use vstd::prelude::*;

pub use crate::records::{
    AccountRecord, AccountRow, CertificateRecord, CertificateRow, ContactRecord, ContactRow,
    DeviceRecord, DeviceRow, EventRecord, EventRow, InviteRecord, InviteRow, LocalIdentityRecord,
    LocalIdentityRow, MessageDirection, MessageRecord, MessageRow, MessageStatus, OutboxItem,
    OutboxRow, OutboxStatus, PairSessionRecord, PairSessionRow, RevocationRecord, RevocationRow,
    SessionRecord, SessionRow, SettingRecord, SettingRow,
};

verus! {

/// For each device, how many of its events are known without a gap.
pub type VersionVector = SortedMap<String, u64>;

/// The order of a history: time, then protocol counter with absent ones first, then id.
pub type MessageOrder = (u64, ((u64, u64), String));

/// The order of the outbox: time, then id.
pub type OutboxOrder = (u64, String);

/// The order of the contacts: latest first, then name without regard to case, then id.
pub type ContactOrder = (u64, (String, String));

/// The order of events: device, then count.
pub type EventOrder = (String, u64);

/// A contact with the last message exchanged with it.
#[derive(Debug, Clone, PartialEq, Eq)]
pub struct ChatSummary {
    pub contact: ContactRecord,
    pub last_message: Option<MessageRecord>,
}

/// Everything that a client keeps.
pub struct Storage {
    pub local_identity: SortedMap<String, LocalIdentityRecord>,
    pub settings: SortedMap<String, SettingRecord>,
    pub sessions: SortedMap<String, SessionRecord>,
    pub pair_sessions: SortedMap<(String, String), PairSessionRecord>,
    pub messages: SortedMap<String, MessageRecord>,
    pub outbox: SortedMap<String, OutboxItem>,
    pub accepted: SortedMap<String, u64>,
    pub counters: SortedMap<String, u64>,
    pub events: EventTable,
    pub vectors: SortedMap<(String, String), u64>,
    pub accounts: SortedMap<String, AccountRecord>,
    pub devices: SortedMap<String, DeviceRecord>,
    pub certificates: SortedMap<(String, String), CertificateRecord>,
    pub revocations: SortedMap<(String, String), RevocationRecord>,
    pub contacts: SortedMap<String, ContactRecord>,
    pub invites: SortedMap<String, InviteRecord>,
}

/// The contents of a `Storage`, table by table.
#[verifier::ext_equal]
pub struct StorageView {
    pub local_identity: Map<Seq<char>, LocalIdentityRow>,
    pub settings: Map<Seq<char>, SettingRow>,
    pub sessions: Map<Seq<char>, SessionRow>,
    pub pair_sessions: Map<(Seq<char>, Seq<char>), PairSessionRow>,
    pub messages: Map<Seq<char>, MessageRow>,
    pub outbox: Map<Seq<char>, OutboxRow>,
    pub accepted: Map<Seq<char>, u64>,
    pub counters: Map<Seq<char>, u64>,
    pub events: Events,
    pub vectors: Map<(Seq<char>, Seq<char>), u64>,
    pub accounts: Map<Seq<char>, AccountRow>,
    pub devices: Map<Seq<char>, DeviceRow>,
    pub certificates: Map<(Seq<char>, Seq<char>), CertificateRow>,
    pub revocations: Map<(Seq<char>, Seq<char>), RevocationRow>,
    pub contacts: Map<Seq<char>, ContactRow>,
    pub invites: Map<Seq<char>, InviteRow>,
}

impl View for Storage {
    type V = StorageView;

    open spec fn view(&self) -> StorageView {
        StorageView {
            local_identity: self.local_identity@,
            settings: self.settings@,
            sessions: self.sessions@,
            pair_sessions: self.pair_sessions@,
            messages: self.messages@,
            outbox: self.outbox@,
            accepted: self.accepted@,
            counters: self.counters@,
            events: self.events@,
            vectors: self.vectors@,
            accounts: self.accounts@,
            devices: self.devices@,
            certificates: self.certificates@,
            revocations: self.revocations@,
            contacts: self.contacts@,
            invites: self.invites@,
        }
    }
}

/// The place of a message of a conversation in its history.
pub open spec fn message_place(conversation: Seq<char>) -> spec_fn(MessageRow) -> Option<
    (u64, ((u64, u64), Seq<char>)),
> {
    |message: MessageRow|
        if message.conversation_id == conversation {
            Some(
                (
                    stored_rank(message.created_at_unix_secs),
                    (
                        match message.protocol_counter {
                            Some(counter) => (1u64, stored_rank(counter)),
                            None => (0u64, 0u64),
                        },
                        message.message_id,
                    ),
                ),
            )
        } else {
            None
        }
}

/// The place of an outbox item among those with a status.
pub open spec fn outbox_place(status: OutboxStatus) -> spec_fn(OutboxRow) -> Option<
    (u64, Seq<char>),
> {
    |item: OutboxRow|
        if item.status == status {
            Some((stored_rank(item.created_at_unix_secs), item.message_id))
        } else {
            None
        }
}

/// The place of a contact in the list of contacts.
pub open spec fn contact_place() -> spec_fn(ContactRow) -> Option<(u64, (Seq<char>, Seq<char>))> {
    |contact: ContactRow|
        Some(
            (
                (u64::MAX - stored_rank(contact.saved_at_unix_secs)) as u64,
                (lower(contact.display_name), contact.contact_id),
            ),
        )
}

/// The place of an account's certificate: by device.
pub open spec fn certificate_place(account: Seq<char>) -> spec_fn(CertificateRow) -> Option<
    Seq<char>,
> {
    |certificate: CertificateRow|
        if certificate.account_id == account {
            Some(certificate.device_id)
        } else {
            None
        }
}

/// The place of an account's revocation: by device.
pub open spec fn revocation_place(account: Seq<char>) -> spec_fn(RevocationRow) -> Option<
    Seq<char>,
> {
    |revocation: RevocationRow|
        if revocation.account_id == account {
            Some(revocation.device_id)
        } else {
            None
        }
}

/// How many events of a device a version vector covers.
pub open spec fn seen_by(vector: Map<Seq<char>, u64>, device: Seq<char>) -> u64 {
    if vector.contains_key(device) {
        vector[device]
    } else {
        0
    }
}

/// The place of an event of a conversation that a version vector does not cover.
pub open spec fn missing_place(
    conversation: Seq<char>,
    vector: Map<Seq<char>, u64>,
) -> spec_fn(EventRow) -> Option<(Seq<char>, u64)> {
    |event: EventRow|
        if event.conversation_id == conversation && event.counter > seen_by(
            vector,
            event.device_id,
        ) {
            Some((event.device_id, stored_rank(event.counter)))
        } else {
            None
        }
}

/// The stored form of each certificate.
pub open spec fn certificate_blobs(rows: Seq<CertificateRow>) -> Seq<Seq<u8>> {
    rows.map_values(|row: CertificateRow| row.certificate)
}

/// The stored form of each revocation.
pub open spec fn revocation_blobs(rows: Seq<RevocationRow>) -> Seq<Seq<u8>> {
    rows.map_values(|row: RevocationRow| row.revocation)
}

impl InviteRow {
    /// Whether the invite was not used yet and has not expired.
    pub open spec fn is_open(self, now: u64) -> bool {
        self.consumed_at_unix_secs is None && stored_rank(self.expires_at_unix_secs) > stored_rank(
            now,
        )
    }
}

pub open spec fn messages_keyed(messages: Map<Seq<char>, MessageRow>) -> bool {
    forall|key: Seq<char>| #[trigger]
        messages.contains_key(key) ==> messages[key].message_id == key
}

pub open spec fn outbox_keyed(outbox: Map<Seq<char>, OutboxRow>) -> bool {
    forall|key: Seq<char>| #[trigger] outbox.contains_key(key) ==> outbox[key].message_id == key
}

pub open spec fn contacts_keyed(contacts: Map<Seq<char>, ContactRow>) -> bool {
    forall|key: Seq<char>| #[trigger]
        contacts.contains_key(key) ==> contacts[key].contact_id == key
}

pub open spec fn invites_keyed(invites: Map<Seq<char>, InviteRow>) -> bool {
    forall|key: Seq<char>| #[trigger] invites.contains_key(key) ==> invites[key].code_hash == key
}

pub open spec fn certificates_keyed(
    certificates: Map<(Seq<char>, Seq<char>), CertificateRow>,
) -> bool {
    forall|key: (Seq<char>, Seq<char>)| #[trigger]
        certificates.contains_key(key) ==> certificates[key].account_id == key.0
            && certificates[key].device_id == key.1
}

pub open spec fn revocations_keyed(
    revocations: Map<(Seq<char>, Seq<char>), RevocationRow>,
) -> bool {
    forall|key: (Seq<char>, Seq<char>)| #[trigger]
        revocations.contains_key(key) ==> revocations[key].account_id == key.0
            && revocations[key].device_id == key.1
}

pub open spec fn events_keyed(events: Events) -> bool {
    forall|key: (Seq<char>, u64)| #[trigger]
        events.contains_key(key) ==> events[key].device_id == key.0 && events[key].counter == key.1
}

/// Whether the version vectors count, for each device that has events in a conversation,
/// its unbroken run there.
pub open spec fn vectors_counted(
    events: Events,
    vectors: Map<(Seq<char>, Seq<char>), u64>,
) -> bool {
    &&& forall|key: (Seq<char>, u64)| #[trigger]
        events.contains_key(key) ==> vectors.contains_key((events[key].conversation_id, key.0))
    &&& forall|key: (Seq<char>, Seq<char>)| #[trigger]
        vectors.contains_key(key) ==> is_run(events, key.0, key.1, vectors[key])
}

impl StorageView {
    /// What a storage holds before anything is stored.
    pub open spec fn nothing() -> StorageView {
        StorageView {
            local_identity: Map::empty(),
            settings: Map::empty(),
            sessions: Map::empty(),
            pair_sessions: Map::empty(),
            messages: Map::empty(),
            outbox: Map::empty(),
            accepted: Map::empty(),
            counters: Map::empty(),
            events: Map::empty(),
            vectors: Map::empty(),
            accounts: Map::empty(),
            devices: Map::empty(),
            certificates: Map::empty(),
            revocations: Map::empty(),
            contacts: Map::empty(),
            invites: Map::empty(),
        }
    }

    /// Every row stands under its own key, and the version vectors count the unbroken
    /// runs of the event history.
    pub open spec fn is_consistent(self) -> bool {
        &&& messages_keyed(self.messages)
        &&& outbox_keyed(self.outbox)
        &&& contacts_keyed(self.contacts)
        &&& invites_keyed(self.invites)
        &&& certificates_keyed(self.certificates)
        &&& revocations_keyed(self.revocations)
        &&& events_keyed(self.events)
        &&& vectors_counted(self.events, self.vectors)
    }

    pub open spec fn with_local_identity(
        self,
        id: Seq<char>,
        role: Seq<char>,
        state: Seq<u8>,
        now: u64,
    ) -> StorageView {
        StorageView {
            local_identity: self.local_identity.insert(
                id,
                LocalIdentityRow { role, state, updated_at_unix_secs: now },
            ),
            ..self
        }
    }

    pub open spec fn with_display_name(self, name: Seq<char>, now: u64) -> StorageView {
        StorageView {
            settings: self.settings.insert(
                "display_name"@,
                SettingRow { value: name, updated_at_unix_secs: now },
            ),
            ..self
        }
    }

    pub open spec fn with_session(
        self,
        conversation: Seq<char>,
        peer_id: Seq<char>,
        role: Seq<char>,
        state: Seq<u8>,
        now: u64,
    ) -> StorageView {
        StorageView {
            sessions: self.sessions.insert(
                conversation,
                SessionRow { peer_id, role, state, updated_at_unix_secs: now },
            ),
            ..self
        }
    }

    pub open spec fn with_pair_session(
        self,
        local: Seq<char>,
        remote: Seq<char>,
        state: Seq<u8>,
        now: u64,
    ) -> StorageView {
        StorageView {
            pair_sessions: self.pair_sessions.insert(
                (local, remote),
                PairSessionRow { state, updated_at_unix_secs: now },
            ),
            ..self
        }
    }

    /// A message with a new id is added; one whose id is known changes nothing.
    pub open spec fn with_message(self, message: MessageRow) -> StorageView {
        if self.messages.contains_key(message.message_id) {
            self
        } else {
            StorageView {
                messages: self.messages.insert(message.message_id, message),
                ..self
            }
        }
    }

    /// An item with a new id is added; of a known item recipient, payload and status are
    /// replaced, its attempts stay.
    pub open spec fn with_outbox_item(self, item: OutboxRow) -> StorageView {
        let row = if self.outbox.contains_key(item.message_id) {
            OutboxRow {
                recipient_id: item.recipient_id,
                payload: item.payload,
                status: item.status,
                ..self.outbox[item.message_id]
            }
        } else {
            item
        };
        StorageView { outbox: self.outbox.insert(item.message_id, row), ..self }
    }

    pub open spec fn with_outbox_attempt(self, message_id: Seq<char>, now: u64) -> StorageView {
        if self.outbox.contains_key(message_id) {
            let item = self.outbox[message_id];
            let row = OutboxRow {
                retry_count: item.retry_count.wrapping_add(1),
                last_attempt_unix_secs: Some(now),
                ..item
            };
            StorageView { outbox: self.outbox.insert(message_id, row), ..self }
        } else {
            self
        }
    }

    pub open spec fn with_outbox_delivered(self, message_id: Seq<char>, now: u64) -> StorageView {
        if self.outbox.contains_key(message_id) {
            let row = OutboxRow {
                status: OutboxStatus::Delivered,
                last_attempt_unix_secs: Some(now),
                ..self.outbox[message_id]
            };
            StorageView { outbox: self.outbox.insert(message_id, row), ..self }
        } else {
            self
        }
    }

    pub open spec fn with_accepted(self, message_id: Seq<char>, now: u64) -> StorageView {
        if self.accepted.contains_key(message_id) {
            self
        } else {
            StorageView { accepted: self.accepted.insert(message_id, now), ..self }
        }
    }

    pub open spec fn with_account(
        self,
        account_id: Seq<char>,
        account_public_key: Seq<u8>,
        account_secret_key: Option<Seq<u8>>,
        now: u64,
    ) -> StorageView {
        StorageView {
            accounts: self.accounts.insert(
                account_id,
                AccountRow { account_public_key, account_secret_key, updated_at_unix_secs: now },
            ),
            ..self
        }
    }

    pub open spec fn with_device(self, device_id: Seq<char>, device: DeviceRow) -> StorageView {
        StorageView { devices: self.devices.insert(device_id, device), ..self }
    }

    pub open spec fn with_certificate(
        self,
        account_id: Seq<char>,
        device_id: Seq<char>,
        certificate: Seq<u8>,
        now: u64,
    ) -> StorageView {
        StorageView {
            certificates: self.certificates.insert(
                (account_id, device_id),
                CertificateRow { account_id, device_id, certificate, updated_at_unix_secs: now },
            ),
            ..self
        }
    }

    /// Of two revocations of one device the one with the greater counter stays, the newer
    /// one where they are equal.
    pub open spec fn with_revocation(
        self,
        account_id: Seq<char>,
        device_id: Seq<char>,
        revocation_counter: u64,
        revocation: Seq<u8>,
        now: u64,
    ) -> StorageView {
        let key = (account_id, device_id);
        let row = if self.revocations.contains_key(key) && stored_rank(
            self.revocations[key].revocation_counter,
        ) > stored_rank(revocation_counter) {
            RevocationRow { updated_at_unix_secs: now, ..self.revocations[key] }
        } else {
            RevocationRow {
                account_id,
                device_id,
                revocation_counter,
                revocation,
                updated_at_unix_secs: now,
            }
        };
        StorageView { revocations: self.revocations.insert(key, row), ..self }
    }

    /// The number that the next event of a local device gets.
    pub open spec fn next_counter(self, device_id: Seq<char>) -> u64 {
        if self.counters.contains_key(device_id) {
            self.counters[device_id]
        } else {
            1
        }
    }

    /// An event with a new device and count is added, one that is known is not; either
    /// way the device's run in the event's conversation is counted anew.
    pub open spec fn with_event(self, event: EventRow) -> StorageView {
        let key = (event.device_id, event.counter);
        let events = if self.events.contains_key(key) {
            self.events
        } else {
            self.events.insert(key, event)
        };
        StorageView {
            events,
            vectors: self.vectors.insert(
                (event.conversation_id, event.device_id),
                run(events, event.conversation_id, event.device_id),
            ),
            ..self
        }
    }

    /// The storage after events were added one after the other.
    pub open spec fn with_events(self, events: Seq<EventRow>) -> StorageView
        decreases events.len(),
    {
        if events.len() == 0 {
            self
        } else {
            self.with_events(events.drop_last()).with_event(events.last())
        }
    }

    /// How many of a list of events are new when they are added one after the other.
    pub open spec fn new_events(self, events: Seq<EventRow>) -> nat
        decreases events.len(),
    {
        if events.len() == 0 {
            0
        } else {
            let before = self.with_events(events.drop_last());
            let last = events.last();
            self.new_events(events.drop_last()) + if before.events.contains_key(
                (last.device_id, last.counter),
            ) {
                0nat
            } else {
                1nat
            }
        }
    }

    /// The version vector of a conversation.
    pub open spec fn vector(self, conversation: Seq<char>) -> Map<Seq<char>, u64> {
        Map::new(
            |device: Seq<char>| self.vectors.contains_key((conversation, device)),
            |device: Seq<char>| self.vectors[(conversation, device)],
        )
    }

    pub open spec fn with_contact(self, contact: ContactRow) -> StorageView {
        StorageView { contacts: self.contacts.insert(contact.contact_id, contact), ..self }
    }

    pub open spec fn with_invite(self, invite: InviteRow) -> StorageView {
        StorageView { invites: self.invites.insert(invite.code_hash, invite), ..self }
    }

    /// Whether an invite code can be used.
    pub open spec fn has_open_invite(self, code_hash: Seq<char>, now: u64) -> bool {
        self.invites.contains_key(code_hash) && self.invites[code_hash].is_open(now)
    }

    /// The storage after an invite was used, where it could be.
    pub open spec fn with_invite_consumed(self, code_hash: Seq<char>, now: u64) -> StorageView {
        if self.has_open_invite(code_hash, now) {
            self.with_invite(
                InviteRow { consumed_at_unix_secs: Some(now), ..self.invites[code_hash] },
            )
        } else {
            self
        }
    }

    /// The storage after a message of the history came so far; an unknown id changes
    /// nothing.
    pub open spec fn with_message_status(
        self,
        message_id: Seq<char>,
        status: MessageStatus,
    ) -> StorageView {
        if self.messages.contains_key(message_id) {
            let row = MessageRow { status, ..self.messages[message_id] };
            StorageView { messages: self.messages.insert(message_id, row), ..self }
        } else {
            self
        }
    }

    /// The storage without the history of a conversation.
    pub open spec fn without_history(self, conversation: Seq<char>) -> StorageView {
        StorageView {
            messages: map_where(
                self.messages,
                |message: MessageRow| message.conversation_id != conversation,
            ),
            ..self
        }
    }
}

impl Storage {
    /// Whether the tables are in order and agree with each other, as every storage that
    /// was built here keeps them.
    pub open spec fn wf(&self) -> bool {
        &&& self.local_identity.wf()
        &&& self.settings.wf()
        &&& self.sessions.wf()
        &&& self.pair_sessions.wf()
        &&& self.messages.wf()
        &&& self.outbox.wf()
        &&& self.accepted.wf()
        &&& self.counters.wf()
        &&& self.events.wf()
        &&& self.vectors.wf()
        &&& self.accounts.wf()
        &&& self.devices.wf()
        &&& self.certificates.wf()
        &&& self.revocations.wf()
        &&& self.contacts.wf()
        &&& self.invites.wf()
        &&& self@.is_consistent()
    }

    /// An empty storage.
    pub fn open_in_memory() -> (storage: Storage)
        ensures
            storage.wf(),
            storage@ == StorageView::nothing(),
    {
        Storage {
            local_identity: SortedMap::new(),
            settings: SortedMap::new(),
            sessions: SortedMap::new(),
            pair_sessions: SortedMap::new(),
            messages: SortedMap::new(),
            outbox: SortedMap::new(),
            accepted: SortedMap::new(),
            counters: SortedMap::new(),
            events: SortedMap::new(),
            vectors: SortedMap::new(),
            accounts: SortedMap::new(),
            devices: SortedMap::new(),
            certificates: SortedMap::new(),
            revocations: SortedMap::new(),
            contacts: SortedMap::new(),
            invites: SortedMap::new(),
        }
    }

    pub fn save_local_identity(&mut self, id: &str, role: &str, state: &[u8])
        requires
            old(self).wf(),
        ensures
            final(self).wf(),
            exists|now: u64|
                final(self)@ == #[trigger] old(self)@.with_local_identity(id@, role@, state@, now),
    {
        self.save_local_identity_at(id, role, state, now_unix_secs())
    }

    pub fn save_local_identity_at(&mut self, id: &str, role: &str, state: &[u8], now: u64)
        requires
            old(self).wf(),
        ensures
            final(self).wf(),
            final(self)@ == old(self)@.with_local_identity(id@, role@, state@, now),
    {
        self.local_identity.insert(
            copy_text(id),
            LocalIdentityRecord {
                role: copy_text(role),
                state: copy_bytes(state),
                updated_at_unix_secs: now,
            },
        );
    }

    pub fn load_local_identity(&self, id: &str) -> (state: Option<Vec<u8>>)
        requires
            self.wf(),
        ensures
            match state {
                Some(state) => self@.local_identity.contains_key(id@) && state@
                    == self@.local_identity[id@].state,
                None => !self@.local_identity.contains_key(id@),
            },
    {
        match self.local_identity.get(&copy_text(id)) {
            Some(row) => Some(copy_bytes(row.state.as_slice())),
            None => None,
        }
    }

    pub fn save_display_name(&mut self, display_name: &str)
        requires
            old(self).wf(),
        ensures
            final(self).wf(),
            exists|now: u64|
                final(self)@ == #[trigger] old(self)@.with_display_name(display_name@, now),
    {
        self.save_display_name_at(display_name, now_unix_secs())
    }

    pub fn save_display_name_at(&mut self, display_name: &str, now: u64)
        requires
            old(self).wf(),
        ensures
            final(self).wf(),
            final(self)@ == old(self)@.with_display_name(display_name@, now),
    {
        self.settings.insert(
            copy_text("display_name"),
            SettingRecord { value: copy_text(display_name), updated_at_unix_secs: now },
        );
    }

    pub fn load_display_name(&self) -> (name: Option<String>)
        requires
            self.wf(),
        ensures
            match name {
                Some(name) => self@.settings.contains_key("display_name"@) && name@
                    == self@.settings["display_name"@].value,
                None => !self@.settings.contains_key("display_name"@),
            },
    {
        match self.settings.get(&copy_text("display_name")) {
            Some(row) => Some(row.value.clone()),
            None => None,
        }
    }

    pub fn save_contact(&mut self, contact: &ContactRecord)
        requires
            old(self).wf(),
        ensures
            final(self).wf(),
            final(self)@ == old(self)@.with_contact(contact@),
    {
        self.contacts.insert(contact.contact_id.clone(), contact.duplicate());
    }

    pub fn load_contact(&self, contact_id: &str) -> (contact: Option<ContactRecord>)
        requires
            self.wf(),
        ensures
            match contact {
                Some(contact) => self@.contacts.contains_key(contact_id@) && contact@
                    == self@.contacts[contact_id@],
                None => !self@.contacts.contains_key(contact_id@),
            },
    {
        match self.contacts.get(&copy_text(contact_id)) {
            Some(row) => Some(row.duplicate()),
            None => None,
        }
    }

    /// All contacts, the latest saved first.
    pub fn contacts(&self) -> (contacts: Vec<ContactRecord>)
        requires
            self.wf(),
        ensures
            is_selection::<Seq<char>, ContactRow, ContactOrder>(
                views(contacts@),
                self@.contacts,
                contact_place(),
            ),
    {
        let place = |contact: &ContactRecord| -> (place: Option<ContactOrder>)
            ensures
                option_view(place) == contact_place()(contact@),
            {
                Some(
                    (
                        u64::MAX - rank_stored(contact.saved_at_unix_secs),
                        (
                            ascii_lowercase(contact.display_name.as_str()),
                            contact.contact_id.clone(),
                        ),
                    ),
                )
            };
        select(&self.contacts, place, Ghost(contact_place()))
    }

    /// All contacts, each with the last message of its conversation.
    pub fn chat_summaries(&self) -> (summaries: Vec<ChatSummary>)
        requires
            self.wf(),
        ensures
            is_selection::<Seq<char>, ContactRow, ContactOrder>(
                summaries@.map_values(|summary: ChatSummary| summary.contact@),
                self@.contacts,
                contact_place(),
            ),
            forall|i: int|
                0 <= i < summaries@.len() ==> is_last_message(
                    option_view((#[trigger] summaries@[i]).last_message),
                    self@.messages,
                    summaries@[i].contact@.contact_id,
                ),
    {
        let contacts = self.contacts();
        let mut summaries: Vec<ChatSummary> = Vec::new();
        let mut i: usize = 0;
        while i < contacts.len()
            invariant
                self.wf(),
                i <= contacts@.len(),
                summaries@.len() == i,
                forall|j: int|
                    0 <= j < i ==> (#[trigger] summaries@[j]).contact@ == contacts@[j]@
                        && is_last_message(
                        option_view(summaries@[j].last_message),
                        self@.messages,
                        summaries@[j].contact@.contact_id,
                    ),
            decreases contacts@.len() - i,
        {
            let contact = contacts[i].duplicate();
            let last_message = self.last_message_for_conversation(contact.contact_id.as_str());
            summaries.push(ChatSummary { contact, last_message });
            i += 1;
        }
        assert(summaries@.map_values(|summary: ChatSummary| summary.contact@) =~= views(contacts@));
        summaries
    }

    pub fn save_invite_record(&mut self, invite: &InviteRecord)
        requires
            old(self).wf(),
        ensures
            final(self).wf(),
            final(self)@ == old(self)@.with_invite(invite@),
    {
        self.invites.insert(invite.code_hash.clone(), invite.duplicate());
    }

    /// Uses an invite: an open one is marked as used and returned, any other is not.
    pub fn consume_invite_record(&mut self, code_hash: &str, now_unix_secs: u64) -> (invite: Option<
        InviteRecord,
    >)
        requires
            old(self).wf(),
        ensures
            final(self).wf(),
            final(self)@ == old(self)@.with_invite_consumed(code_hash@, now_unix_secs),
            match invite {
                Some(invite) => old(self)@.has_open_invite(code_hash@, now_unix_secs) && invite@
                    == final(self)@.invites[code_hash@],
                None => !old(self)@.has_open_invite(code_hash@, now_unix_secs),
            },
    {
        let key = copy_text(code_hash);
        let mut invite = match self.invites.get(&key) {
            Some(invite) => invite.duplicate(),
            None => {
                return None;
            },
        };
        if invite.consumed_at_unix_secs.is_some() || rank_stored(invite.expires_at_unix_secs)
            <= rank_stored(now_unix_secs) {
            return None;
        }
        invite.consumed_at_unix_secs = Some(now_unix_secs);
        self.invites.insert(key, invite.duplicate());
        Some(invite)
    }

    pub fn save_session(&mut self, conversation_id: &str, peer_id: &str, role: &str, state: &[u8])
        requires
            old(self).wf(),
        ensures
            final(self).wf(),
            exists|now: u64|
                final(self)@ == #[trigger] old(self)@.with_session(
                    conversation_id@,
                    peer_id@,
                    role@,
                    state@,
                    now,
                ),
    {
        self.save_session_at(conversation_id, peer_id, role, state, now_unix_secs())
    }

    pub fn save_session_at(
        &mut self,
        conversation_id: &str,
        peer_id: &str,
        role: &str,
        state: &[u8],
        now: u64,
    )
        requires
            old(self).wf(),
        ensures
            final(self).wf(),
            final(self)@ == old(self)@.with_session(
                conversation_id@,
                peer_id@,
                role@,
                state@,
                now,
            ),
    {
        self.sessions.insert(
            copy_text(conversation_id),
            SessionRecord {
                peer_id: copy_text(peer_id),
                role: copy_text(role),
                state: copy_bytes(state),
                updated_at_unix_secs: now,
            },
        );
    }

    pub fn load_session(&self, conversation_id: &str) -> (state: Option<Vec<u8>>)
        requires
            self.wf(),
        ensures
            match state {
                Some(state) => self@.sessions.contains_key(conversation_id@) && state@
                    == self@.sessions[conversation_id@].state,
                None => !self@.sessions.contains_key(conversation_id@),
            },
    {
        match self.sessions.get(&copy_text(conversation_id)) {
            Some(row) => Some(copy_bytes(row.state.as_slice())),
            None => None,
        }
    }

    pub fn save_device_pair_session(
        &mut self,
        local_device_id: &str,
        remote_device_id: &str,
        state: &[u8],
    )
        requires
            old(self).wf(),
        ensures
            final(self).wf(),
            exists|now: u64|
                final(self)@ == #[trigger] old(self)@.with_pair_session(
                    local_device_id@,
                    remote_device_id@,
                    state@,
                    now,
                ),
    {
        self.save_device_pair_session_at(local_device_id, remote_device_id, state, now_unix_secs())
    }

    pub fn save_device_pair_session_at(
        &mut self,
        local_device_id: &str,
        remote_device_id: &str,
        state: &[u8],
        now: u64,
    )
        requires
            old(self).wf(),
        ensures
            final(self).wf(),
            final(self)@ == old(self)@.with_pair_session(
                local_device_id@,
                remote_device_id@,
                state@,
                now,
            ),
    {
        self.pair_sessions.insert(
            (copy_text(local_device_id), copy_text(remote_device_id)),
            PairSessionRecord { state: copy_bytes(state), updated_at_unix_secs: now },
        );
    }

    pub fn load_device_pair_session(&self, local_device_id: &str, remote_device_id: &str) -> (state:
        Option<Vec<u8>>)
        requires
            self.wf(),
        ensures
            match state {
                Some(state) => self@.pair_sessions.contains_key(
                    (local_device_id@, remote_device_id@),
                ) && state@ == self@.pair_sessions[(local_device_id@, remote_device_id@)].state,
                None => !self@.pair_sessions.contains_key((local_device_id@, remote_device_id@)),
            },
    {
        let key = (copy_text(local_device_id), copy_text(remote_device_id));
        match self.pair_sessions.get(&key) {
            Some(row) => Some(copy_bytes(row.state.as_slice())),
            None => None,
        }
    }

    /// Adds a message to the history, unless one with its id is there.
    pub fn insert_message(&mut self, message: &MessageRecord)
        requires
            old(self).wf(),
        ensures
            final(self).wf(),
            final(self)@ == old(self)@.with_message(message@),
    {
        if !self.messages.contains_key(&message.message_id) {
            self.messages.insert(message.message_id.clone(), message.duplicate());
        }
    }

    /// Notes how far a message of the history has come.
    pub fn update_message_status(&mut self, message_id: &str, status: MessageStatus)
        requires
            old(self).wf(),
        ensures
            final(self).wf(),
            final(self)@ == old(self)@.with_message_status(message_id@, status),
    {
        let key = copy_text(message_id);
        let updated = match self.messages.get(&key) {
            Some(message) => {
                let mut message = message.duplicate();
                message.status = status;
                message
            },
            None => {
                return;
            },
        };
        self.messages.insert(key, updated);
    }

    /// Whether the history has a message with an id.
    pub fn message_exists(&self, message_id: &str) -> (found: bool)
        requires
            self.wf(),
        ensures
            found == self@.messages.contains_key(message_id@),
    {
        self.messages.contains_key(&copy_text(message_id))
    }

    /// Stores a party's state, its session and a message in one step.
    pub fn save_state_session_and_insert_message(
        &mut self,
        local_identity_id: &str,
        local_identity_role: &str,
        local_identity_state: &[u8],
        conversation_id: &str,
        peer_id: &str,
        session_role: &str,
        session_state: &[u8],
        message: &MessageRecord,
    )
        requires
            old(self).wf(),
        ensures
            final(self).wf(),
            exists|now: u64|
                final(self)@ == #[trigger] old(self)@.with_local_identity(
                    local_identity_id@,
                    local_identity_role@,
                    local_identity_state@,
                    now,
                ).with_session(
                    conversation_id@,
                    peer_id@,
                    session_role@,
                    session_state@,
                    now,
                ).with_message(message@),
    {
        self.save_state_session_and_insert_message_at(
            local_identity_id,
            local_identity_role,
            local_identity_state,
            conversation_id,
            peer_id,
            session_role,
            session_state,
            message,
            now_unix_secs(),
        );
    }

    pub fn save_state_session_and_insert_message_at(
        &mut self,
        local_identity_id: &str,
        local_identity_role: &str,
        local_identity_state: &[u8],
        conversation_id: &str,
        peer_id: &str,
        session_role: &str,
        session_state: &[u8],
        message: &MessageRecord,
        now: u64,
    )
        requires
            old(self).wf(),
        ensures
            final(self).wf(),
            final(self)@ == old(self)@.with_local_identity(
                local_identity_id@,
                local_identity_role@,
                local_identity_state@,
                now,
            ).with_session(
                conversation_id@,
                peer_id@,
                session_role@,
                session_state@,
                now,
            ).with_message(message@),
    {
        self.save_local_identity_at(
            local_identity_id,
            local_identity_role,
            local_identity_state,
            now,
        );
        self.save_session_at(conversation_id, peer_id, session_role, session_state, now);
        self.insert_message(message);
    }

    /// Stores a party's state, its session, a message and its outbox item in one step.
    pub fn save_state_session_message_and_outbox(
        &mut self,
        local_identity_id: &str,
        local_identity_role: &str,
        local_identity_state: &[u8],
        conversation_id: &str,
        peer_id: &str,
        session_role: &str,
        session_state: &[u8],
        message: &MessageRecord,
        outbox: &OutboxItem,
    )
        requires
            old(self).wf(),
        ensures
            final(self).wf(),
            exists|now: u64|
                final(self)@ == #[trigger] old(self)@.with_local_identity(
                    local_identity_id@,
                    local_identity_role@,
                    local_identity_state@,
                    now,
                ).with_session(
                    conversation_id@,
                    peer_id@,
                    session_role@,
                    session_state@,
                    now,
                ).with_message(message@).with_outbox_item(outbox@),
    {
        self.save_state_session_message_and_outbox_at(
            local_identity_id,
            local_identity_role,
            local_identity_state,
            conversation_id,
            peer_id,
            session_role,
            session_state,
            message,
            outbox,
            now_unix_secs(),
        );
    }

    pub fn save_state_session_message_and_outbox_at(
        &mut self,
        local_identity_id: &str,
        local_identity_role: &str,
        local_identity_state: &[u8],
        conversation_id: &str,
        peer_id: &str,
        session_role: &str,
        session_state: &[u8],
        message: &MessageRecord,
        outbox: &OutboxItem,
        now: u64,
    )
        requires
            old(self).wf(),
        ensures
            final(self).wf(),
            final(self)@ == old(self)@.with_local_identity(
                local_identity_id@,
                local_identity_role@,
                local_identity_state@,
                now,
            ).with_session(
                conversation_id@,
                peer_id@,
                session_role@,
                session_state@,
                now,
            ).with_message(message@).with_outbox_item(outbox@),
    {
        self.save_local_identity_at(
            local_identity_id,
            local_identity_role,
            local_identity_state,
            now,
        );
        self.save_session_at(conversation_id, peer_id, session_role, session_state, now);
        self.insert_message(message);
        self.put_outbox_item(outbox);
    }

    /// Stores a device session and an outbox item in one step.
    pub fn save_device_pair_session_and_outbox(
        &mut self,
        local_device_id: &str,
        remote_device_id: &str,
        session_state: &[u8],
        outbox: &OutboxItem,
    )
        requires
            old(self).wf(),
        ensures
            final(self).wf(),
            exists|now: u64|
                final(self)@ == #[trigger] old(self)@.with_pair_session(
                    local_device_id@,
                    remote_device_id@,
                    session_state@,
                    now,
                ).with_outbox_item(outbox@),
    {
        self.save_device_pair_session_and_outbox_at(
            local_device_id,
            remote_device_id,
            session_state,
            outbox,
            now_unix_secs(),
        );
    }

    pub fn save_device_pair_session_and_outbox_at(
        &mut self,
        local_device_id: &str,
        remote_device_id: &str,
        session_state: &[u8],
        outbox: &OutboxItem,
        now: u64,
    )
        requires
            old(self).wf(),
        ensures
            final(self).wf(),
            final(self)@ == old(self)@.with_pair_session(
                local_device_id@,
                remote_device_id@,
                session_state@,
                now,
            ).with_outbox_item(outbox@),
    {
        self.save_device_pair_session_at(
            local_device_id,
            remote_device_id,
            session_state,
            now,
        );
        self.put_outbox_item(outbox);
    }

    /// Adds an outbox item, or replaces what a known item carries.
    pub fn put_outbox_item(&mut self, item: &OutboxItem)
        requires
            old(self).wf(),
        ensures
            final(self).wf(),
            final(self)@ == old(self)@.with_outbox_item(item@),
    {
        let row = match self.outbox.get(&item.message_id) {
            Some(known) => OutboxItem {
                message_id: known.message_id.clone(),
                recipient_id: item.recipient_id.clone(),
                payload: copy_bytes(item.payload.as_slice()),
                status: item.status,
                retry_count: known.retry_count,
                created_at_unix_secs: known.created_at_unix_secs,
                last_attempt_unix_secs: known.last_attempt_unix_secs,
            },
            None => item.duplicate(),
        };
        self.outbox.insert(item.message_id.clone(), row);
    }

    /// The items whose receipt is not confirmed, the oldest first.
    pub fn pending_outbox_items(&self) -> (items: Vec<OutboxItem>)
        requires
            self.wf(),
        ensures
            is_selection::<Seq<char>, OutboxRow, OutboxOrder>(
                views(items@),
                self@.outbox,
                outbox_place(OutboxStatus::Pending),
            ),
    {
        self.outbox_items_with_status(OutboxStatus::Pending)
    }

    pub fn outbox_item(&self, message_id: &str) -> (item: Option<OutboxItem>)
        requires
            self.wf(),
        ensures
            match item {
                Some(item) => self@.outbox.contains_key(message_id@) && item@
                    == self@.outbox[message_id@],
                None => !self@.outbox.contains_key(message_id@),
            },
    {
        match self.outbox.get(&copy_text(message_id)) {
            Some(row) => Some(row.duplicate()),
            None => None,
        }
    }

    /// Counts a delivery attempt of an item.
    pub fn record_outbox_attempt(&mut self, message_id: &str)
        requires
            old(self).wf(),
            old(self)@.outbox.contains_key(message_id@) ==> old(
                self,
            )@.outbox[message_id@].retry_count != MAX_STORED,
        ensures
            final(self).wf(),
            exists|now: u64|
                final(self)@ == #[trigger] old(self)@.with_outbox_attempt(message_id@, now),
    {
        self.record_outbox_attempt_at(message_id, now_unix_secs())
    }

    pub fn record_outbox_attempt_at(&mut self, message_id: &str, now: u64)
        requires
            old(self).wf(),
            old(self)@.outbox.contains_key(message_id@) ==> old(
                self,
            )@.outbox[message_id@].retry_count != MAX_STORED,
        ensures
            final(self).wf(),
            final(self)@ == old(self)@.with_outbox_attempt(message_id@, now),
    {
        let key = copy_text(message_id);
        let mut row = match self.outbox.get(&key) {
            Some(row) => row.duplicate(),
            None => {
                return;
            },
        };
        row.retry_count = row.retry_count.wrapping_add(1);
        row.last_attempt_unix_secs = Some(now);
        self.outbox.insert(key, row);
    }

    /// Marks an item as confirmed.
    pub fn mark_outbox_delivered(&mut self, message_id: &str)
        requires
            old(self).wf(),
        ensures
            final(self).wf(),
            exists|now: u64|
                final(self)@ == #[trigger] old(self)@.with_outbox_delivered(message_id@, now),
    {
        self.mark_outbox_delivered_at(message_id, now_unix_secs())
    }

    pub fn mark_outbox_delivered_at(&mut self, message_id: &str, now: u64)
        requires
            old(self).wf(),
        ensures
            final(self).wf(),
            final(self)@ == old(self)@.with_outbox_delivered(message_id@, now),
    {
        let key = copy_text(message_id);
        let mut row = match self.outbox.get(&key) {
            Some(row) => row.duplicate(),
            None => {
                return;
            },
        };
        row.status = OutboxStatus::Delivered;
        row.last_attempt_unix_secs = Some(now);
        self.outbox.insert(key, row);
    }

    /// Accepts a message id the first time, and only then.
    pub fn accept_message_once(&mut self, message_id: &str) -> (accepted: bool)
        requires
            old(self).wf(),
        ensures
            final(self).wf(),
            accepted == !old(self)@.accepted.contains_key(message_id@),
            exists|now: u64| final(self)@ == #[trigger] old(self)@.with_accepted(message_id@, now),
    {
        self.accept_message_once_at(message_id, now_unix_secs())
    }

    pub fn accept_message_once_at(&mut self, message_id: &str, now: u64) -> (accepted: bool)
        requires
            old(self).wf(),
        ensures
            final(self).wf(),
            accepted == !old(self)@.accepted.contains_key(message_id@),
            final(self)@ == old(self)@.with_accepted(message_id@, now),
    {
        let key = copy_text(message_id);
        if self.accepted.contains_key(&key) {
            return false;
        }
        self.accepted.insert(key, now);
        true
    }

    pub fn save_account_identity(
        &mut self,
        account_id: &str,
        account_public_key: &[u8],
        account_secret_key: Option<&[u8]>,
    )
        requires
            old(self).wf(),
        ensures
            final(self).wf(),
            exists|now: u64|
                final(self)@ == #[trigger] old(self)@.with_account(
                    account_id@,
                    account_public_key@,
                    option_view(account_secret_key),
                    now,
                ),
    {
        let secret = match account_secret_key {
            Some(key) => Some(copy_bytes(key)),
            None => None,
        };
        let now: u64 = now_unix_secs();
        self.accounts.insert(
            copy_text(account_id),
            AccountRecord {
                account_public_key: copy_bytes(account_public_key),
                account_secret_key: secret,
                updated_at_unix_secs: now,
            },
        );
        assert(self@ == old(self)@.with_account(
            account_id@,
            account_public_key@,
            option_view(account_secret_key),
            now,
        ));
    }

    /// The secret key of an account, where the account is known and is the user's own.
    pub fn load_account_secret_key(&self, account_id: &str) -> (key: Option<Vec<u8>>)
        requires
            self.wf(),
        ensures
            option_view(key) == if self@.accounts.contains_key(account_id@) {
                self@.accounts[account_id@].account_secret_key
            } else {
                None
            },
    {
        match self.accounts.get(&copy_text(account_id)) {
            Some(row) => copy_option_bytes(&row.account_secret_key),
            None => None,
        }
    }

    pub fn save_device_identity(
        &mut self,
        device_id: &str,
        account_id: &str,
        device_ed25519_public_key: &[u8],
        device_ed25519_secret_key: &[u8],
        device_x25519_public_key: &[u8],
        device_x25519_private_key: &[u8],
    )
        requires
            old(self).wf(),
        ensures
            final(self).wf(),
            exists|now: u64|
                final(self)@ == #[trigger] old(self)@.with_device(
                    device_id@,
                    DeviceRow {
                        account_id: account_id@,
                        device_ed25519_public_key: device_ed25519_public_key@,
                        device_ed25519_secret_key: device_ed25519_secret_key@,
                        device_x25519_public_key: device_x25519_public_key@,
                        device_x25519_private_key: device_x25519_private_key@,
                        updated_at_unix_secs: now,
                    },
                ),
    {
        let now: u64 = now_unix_secs();
        let row = DeviceRecord {
            account_id: copy_text(account_id),
            device_ed25519_public_key: copy_bytes(device_ed25519_public_key),
            device_ed25519_secret_key: copy_bytes(device_ed25519_secret_key),
            device_x25519_public_key: copy_bytes(device_x25519_public_key),
            device_x25519_private_key: copy_bytes(device_x25519_private_key),
            updated_at_unix_secs: now,
        };
        let ghost shown = row@;
        self.devices.insert(copy_text(device_id), row);
        assert(self@ == old(self)@.with_device(device_id@, shown));
    }

    /// The account, id and secret keys of a device in binary form.
    pub fn load_device_identity(&self, device_id: &str) -> (identity: Option<Vec<u8>>)
        requires
            self.wf(),
        ensures
            match identity {
                Some(identity) => {
                    let row = self@.devices[device_id@];
                    &&& self@.devices.contains_key(device_id@)
                    &&& identity@ == encoded_text(row.account_id) + encoded_text(device_id@)
                        + encoded_bytes(row.device_ed25519_secret_key) + encoded_bytes(
                        row.device_x25519_private_key,
                    )
                },
                None => !self@.devices.contains_key(device_id@),
            },
    {
        let row = match self.devices.get(&copy_text(device_id)) {
            Some(row) => row,
            None => {
                return None;
            },
        };
        let mut identity: Vec<u8> = Vec::new();
        if let Ok(part) = encode_text(row.account_id.as_str()) {
            append_bytes(&mut identity, part.as_slice());
        }
        if let Ok(part) = encode_text(device_id) {
            append_bytes(&mut identity, part.as_slice());
        }
        if let Ok(part) = encode_bytes(row.device_ed25519_secret_key.as_slice()) {
            append_bytes(&mut identity, part.as_slice());
        }
        if let Ok(part) = encode_bytes(row.device_x25519_private_key.as_slice()) {
            append_bytes(&mut identity, part.as_slice());
        }
        assert(identity@ =~= encoded_text(row@.account_id) + encoded_text(device_id@)
            + encoded_bytes(row@.device_ed25519_secret_key) + encoded_bytes(
            row@.device_x25519_private_key,
        ));
        Some(identity)
    }

    pub fn save_device_certificate(
        &mut self,
        account_id: &str,
        device_id: &str,
        certificate: &[u8],
    )
        requires
            old(self).wf(),
        ensures
            final(self).wf(),
            exists|now: u64|
                final(self)@ == #[trigger] old(self)@.with_certificate(
                    account_id@,
                    device_id@,
                    certificate@,
                    now,
                ),
    {
        let now: u64 = now_unix_secs();
        self.certificates.insert(
            (copy_text(account_id), copy_text(device_id)),
            CertificateRecord {
                account_id: copy_text(account_id),
                device_id: copy_text(device_id),
                certificate: copy_bytes(certificate),
                updated_at_unix_secs: now,
            },
        );
        assert(self@ == old(self)@.with_certificate(account_id@, device_id@, certificate@, now));
    }

    /// The certificates of an account, by device.
    pub fn device_certificates_for_account(&self, account_id: &str) -> (certificates: Vec<Vec<u8>>)
        requires
            self.wf(),
        ensures
            exists|rows: Seq<CertificateRow>|
                is_selection::<(Seq<char>, Seq<char>), CertificateRow, String>(
                    rows,
                    self@.certificates,
                    certificate_place(account_id@),
                ) && views(certificates@) == #[trigger] certificate_blobs(rows),
    {
        let place = |certificate: &CertificateRecord| -> (place: Option<String>)
            ensures
                option_view(place) == certificate_place(account_id@)(certificate@),
            {
                if same_text(certificate.account_id.as_str(), account_id) {
                    Some(certificate.device_id.clone())
                } else {
                    None
                }
            };
        let rows = select(&self.certificates, place, Ghost(certificate_place(account_id@)));
        let mut certificates: Vec<Vec<u8>> = Vec::new();
        let mut i: usize = 0;
        while i < rows.len()
            invariant
                i <= rows@.len(),
                certificates@.len() == i,
                forall|j: int|
                    0 <= j < i ==> (#[trigger] certificates@[j])@ == rows@[j]@.certificate,
            decreases rows@.len() - i,
        {
            certificates.push(copy_bytes(rows[i].certificate.as_slice()));
            i += 1;
        }
        assert(views(certificates@) =~= certificate_blobs(views(rows@)));
        certificates
    }

    /// Stores a revocation, unless one with a greater counter is known.
    pub fn save_device_revocation(
        &mut self,
        account_id: &str,
        device_id: &str,
        revocation_counter: u64,
        revocation: &[u8],
    )
        requires
            old(self).wf(),
        ensures
            final(self).wf(),
            exists|now: u64|
                final(self)@ == #[trigger] old(self)@.with_revocation(
                    account_id@,
                    device_id@,
                    revocation_counter,
                    revocation@,
                    now,
                ),
    {
        let now: u64 = now_unix_secs();
        let key = (copy_text(account_id), copy_text(device_id));
        let mut row = RevocationRecord {
            account_id: copy_text(account_id),
            device_id: copy_text(device_id),
            revocation_counter,
            revocation: copy_bytes(revocation),
            updated_at_unix_secs: now,
        };
        if let Some(known) = self.revocations.get(&key) {
            if rank_stored(known.revocation_counter) > rank_stored(revocation_counter) {
                row.revocation_counter = known.revocation_counter;
                row.revocation = copy_bytes(known.revocation.as_slice());
            }
        }
        self.revocations.insert(key, row);
        assert(self@ == old(self)@.with_revocation(
            account_id@,
            device_id@,
            revocation_counter,
            revocation@,
            now,
        ));
    }

    /// The revocations of an account, by device.
    pub fn device_revocations_for_account(&self, account_id: &str) -> (revocations: Vec<Vec<u8>>)
        requires
            self.wf(),
        ensures
            exists|rows: Seq<RevocationRow>|
                is_selection::<(Seq<char>, Seq<char>), RevocationRow, String>(
                    rows,
                    self@.revocations,
                    revocation_place(account_id@),
                ) && views(revocations@) == #[trigger] revocation_blobs(rows),
    {
        let place = |revocation: &RevocationRecord| -> (place: Option<String>)
            ensures
                option_view(place) == revocation_place(account_id@)(revocation@),
            {
                if same_text(revocation.account_id.as_str(), account_id) {
                    Some(revocation.device_id.clone())
                } else {
                    None
                }
            };
        let rows = select(&self.revocations, place, Ghost(revocation_place(account_id@)));
        let mut revocations: Vec<Vec<u8>> = Vec::new();
        let mut i: usize = 0;
        while i < rows.len()
            invariant
                i <= rows@.len(),
                revocations@.len() == i,
                forall|j: int|
                    0 <= j < i ==> (#[trigger] revocations@[j])@ == rows@[j]@.revocation,
            decreases rows@.len() - i,
        {
            revocations.push(copy_bytes(rows[i].revocation.as_slice()));
            i += 1;
        }
        assert(views(revocations@) =~= revocation_blobs(views(rows@)));
        revocations
    }

    /// Takes the next number for an event of a local device. The first is one.
    pub fn next_local_event_counter(&mut self, device_id: &str) -> (counter: u64)
        requires
            old(self).wf(),
            old(self)@.next_counter(device_id@) < MAX_STORED,
        ensures
            final(self).wf(),
            counter == old(self)@.next_counter(device_id@),
            final(self)@ == (StorageView {
                counters: old(self)@.counters.insert(device_id@, (counter + 1) as u64),
                ..old(self)@
            }),
    {
        let key = copy_text(device_id);
        let current: u64 = match self.counters.get(&key) {
            Some(next) => *next,
            None => 1,
        };
        self.counters.insert(key, current + 1);
        current
    }

    /// Adds an event to the history, unless it is known.
    pub fn append_event(&mut self, event: &EventRecord) -> (inserted: bool)
        requires
            old(self).wf(),
        ensures
            final(self).wf(),
            inserted == !old(self)@.events.contains_key((event@.device_id, event@.counter)),
            final(self)@ == old(self)@.with_event(event@),
    {
        let key = (event.device_id.clone(), event.counter);
        let inserted = !self.events.contains_key(&key);
        if inserted {
            self.events.insert(key, event.duplicate());
        }
        let contiguous: u64 = count_run(
            &self.events,
            event.conversation_id.as_str(),
            event.device_id.as_str(),
        );
        self.vectors.insert(
            (event.conversation_id.clone(), event.device_id.clone()),
            contiguous,
        );
        proof {
            assert(self.events@ == old(self)@.with_event(event@).events);
            lemma_event_keeps_consistency(old(self)@, event@, contiguous);
        }
        inserted
    }

    /// Adds events to the history and counts those that were not known.
    pub fn append_events(&mut self, events: &[EventRecord]) -> (inserted: usize)
        requires
            old(self).wf(),
        ensures
            final(self).wf(),
            final(self)@ == old(self)@.with_events(views(events@)),
            inserted == old(self)@.new_events(views(events@)),
    {
        let mut inserted: usize = 0;
        let mut i: usize = 0;
        assert(views(events@).take(0) =~= Seq::<EventRow>::empty());
        while i < events.len()
            invariant
                self.wf(),
                i <= events@.len(),
                inserted <= i,
                self@ == old(self)@.with_events(views(events@).take(i as int)),
                inserted == old(self)@.new_events(views(events@).take(i as int)),
            decreases events@.len() - i,
        {
            proof {
                let next = views(events@).take(i + 1);
                assert(next.drop_last() =~= views(events@).take(i as int));
                assert(next.last() == events@[i as int]@);
            }
            if self.append_event(&events[i]) {
                inserted += 1;
            }
            i += 1;
        }
        assert(views(events@).take(i as int) =~= views(events@));
        inserted
    }

    /// The version vector of a conversation.
    pub fn version_vector(&self, conversation_id: &str) -> (vector: VersionVector)
        requires
            self.wf(),
        ensures
            vector.wf(),
            vector@ == self@.vector(conversation_id@),
    {
        let total: usize = self.vectors.len();
        let ghost keys = self.vectors.keys();
        let mut vector: VersionVector = SortedMap::new();
        let mut i: usize = 0;
        while i < total
            invariant
                self.wf(),
                vector.wf(),
                i <= total,
                keys == self.vectors.keys(),
                total == keys.len(),
                lists_keys::<(String, String), u64>(keys, self.vectors@),
                forall|device: Seq<char>| #[trigger]
                    vector@.contains_key(device) <==> exists|j: int|
                        0 <= j < i && #[trigger] keys[j] == (conversation_id@, device),
                forall|device: Seq<char>| #[trigger]
                    vector@.contains_key(device) ==> vector@[device] == self.vectors@[(
                        conversation_id@,
                        device,
                    )],
            decreases total - i,
        {
            let ghost before = vector@;
            let key = self.vectors.key_at(i);
            if same_text(key.0.as_str(), conversation_id) {
                vector.insert(key.1.clone(), *self.vectors.value_at(i));
            }
            proof {
                assert forall|device: Seq<char>| #[trigger]
                    vector@.contains_key(device) <==> exists|j: int|
                        0 <= j < i + 1 && #[trigger] keys[j] == (conversation_id@, device) by {
                    if before.contains_key(device) {
                        let j = choose|j: int|
                            0 <= j < i && #[trigger] keys[j] == (conversation_id@, device);
                        assert(keys[j] == (conversation_id@, device));
                    }
                    if keys[i as int] == (conversation_id@, device) {
                        assert(keys[i as int].1 == device);
                    }
                }
            }
            i += 1;
        }
        proof {
            let wanted = self@.vector(conversation_id@);
            assert forall|device: Seq<char>| #[trigger]
                vector@.contains_key(device) <==> wanted.contains_key(device) by {
                if vector@.contains_key(device) {
                    let j = choose|j: int|
                        0 <= j < total && #[trigger] keys[j] == (conversation_id@, device);
                    assert(self.vectors@.contains_key(keys[j]));
                }
                if self.vectors@.contains_key((conversation_id@, device)) {
                    assert(keys.contains((conversation_id@, device)));
                    let j = choose|j: int|
                        0 <= j < keys.len() && keys[j] == (conversation_id@, device);
                    assert(keys[j] == (conversation_id@, device));
                }
            }
            assert(vector@ =~= wanted);
        }
        vector
    }

    /// The events of a conversation that a peer's version vector does not cover.
    pub fn missing_events_for(&self, conversation_id: &str, peer_vector: &VersionVector) -> (missing:
        Vec<EventRecord>)
        requires
            self.wf(),
            peer_vector.wf(),
        ensures
            is_selection::<(Seq<char>, u64), EventRow, EventOrder>(
                views(missing@),
                self@.events,
                missing_place(conversation_id@, peer_vector@),
            ),
    {
        let place = |event: &EventRecord| -> (place: Option<EventOrder>)
            ensures
                option_view(place) == missing_place(conversation_id@, peer_vector@)(event@),
            {
                let seen: u64 = match peer_vector.get(&event.device_id) {
                    Some(seen) => *seen,
                    None => 0,
                };
                if same_text(event.conversation_id.as_str(), conversation_id) && event.counter
                    > seen {
                    Some((event.device_id.clone(), rank_stored(event.counter)))
                } else {
                    None
                }
            };
        select(
            &self.events,
            place,
            Ghost(missing_place(conversation_id@, peer_vector@)),
        )
    }

    /// The history of a conversation, in order.
    pub fn messages_for_conversation(&self, conversation_id: &str) -> (messages: Vec<MessageRecord>)
        requires
            self.wf(),
        ensures
            is_selection::<Seq<char>, MessageRow, MessageOrder>(
                views(messages@),
                self@.messages,
                message_place(conversation_id@),
            ),
    {
        let place = |message: &MessageRecord| -> (place: Option<MessageOrder>)
            ensures
                option_view(place) == message_place(conversation_id@)(message@),
            {
                if same_text(message.conversation_id.as_str(), conversation_id) {
                    let counter: (u64, u64) = match message.protocol_counter {
                        Some(counter) => (1, rank_stored(counter)),
                        None => (0, 0),
                    };
                    Some(
                        (
                            rank_stored(message.created_at_unix_secs),
                            (counter, message.message_id.clone()),
                        ),
                    )
                } else {
                    None
                }
            };
        select(&self.messages, place, Ghost(message_place(conversation_id@)))
    }

    /// The last message of a conversation's history.
    pub fn last_message_for_conversation(&self, conversation_id: &str) -> (last: Option<
        MessageRecord,
    >)
        requires
            self.wf(),
        ensures
            is_last_message(option_view(last), self@.messages, conversation_id@),
    {
        let messages = self.messages_for_conversation(conversation_id);
        let ghost shown = views(messages@);
        if messages.len() == 0 {
            assert(shown.len() == 0);
            return None;
        }
        let last = messages[messages.len() - 1].duplicate();
        assert(shown.last() == last@);
        Some(last)
    }

    /// Deletes the history of a conversation and counts what was deleted.
    pub fn clear_conversation_history(&mut self, conversation_id: &str) -> (removed: usize)
        requires
            old(self).wf(),
        ensures
            final(self).wf(),
            final(self)@ == old(self)@.without_history(conversation_id@),
            removed == keys_where(
                old(self)@.messages,
                |message: MessageRow| message.conversation_id == conversation_id@,
            ).len(),
    {
        let cleared = |message: &MessageRecord| -> (answer: bool)
            ensures
                answer == (message@.conversation_id == conversation_id@),
            { same_text(message.conversation_id.as_str(), conversation_id) };
        let kept = |message: &MessageRecord| -> (answer: bool)
            ensures
                answer == (message@.conversation_id != conversation_id@),
            { !same_text(message.conversation_id.as_str(), conversation_id) };
        let removed: usize = count_where(
            &self.messages,
            cleared,
            Ghost(|message: MessageRow| message.conversation_id == conversation_id@),
        );
        self.messages = filtered(
            &self.messages,
            kept,
            Ghost(|message: MessageRow| message.conversation_id != conversation_id@),
        );
        removed
    }

    fn outbox_items_with_status(&self, status: OutboxStatus) -> (items: Vec<OutboxItem>)
        requires
            self.wf(),
        ensures
            is_selection::<Seq<char>, OutboxRow, OutboxOrder>(
                views(items@),
                self@.outbox,
                outbox_place(status),
            ),
    {
        let place = |item: &OutboxItem| -> (place: Option<OutboxOrder>)
            ensures
                option_view(place) == outbox_place(status)(item@),
            {
                if item.status == status {
                    Some((rank_stored(item.created_at_unix_secs), item.message_id.clone()))
                } else {
                    None
                }
            };
        select(&self.outbox, place, Ghost(outbox_place(status)))
    }
}

/// Whether a message is the last of a conversation's history, or is absent where the
/// history is empty.
pub open spec fn is_last_message(
    last: Option<MessageRow>,
    messages: Map<Seq<char>, MessageRow>,
    conversation: Seq<char>,
) -> bool {
    let place = message_place(conversation);
    match last {
        Some(last) => {
            &&& messages.contains_value(last)
            &&& place(last) is Some
            &&& forall|key: Seq<char>|
                messages.contains_key(key) && place(#[trigger] messages[key]) is Some
                    ==> messages[key] == last || MessageOrder::before(
                    place(messages[key])->0,
                    place(last)->0,
                )
        },
        None => forall|key: Seq<char>|
            messages.contains_key(key) ==> place(#[trigger] messages[key]) is None,
    }
}

/// Adding an event keeps the version vectors true to the history.
proof fn lemma_event_keeps_consistency(storage: StorageView, event: EventRow, count: u64)
    requires
        storage.is_consistent(),
        is_run(
            storage.with_event(event).events,
            event.conversation_id,
            event.device_id,
            count,
        ),
    ensures
        storage.with_event(event).is_consistent(),
{
    let after = storage.with_event(event);
    let own = (event.conversation_id, event.device_id);
    lemma_run(after.events, event.conversation_id, event.device_id, count);
    assert forall|key: (Seq<char>, Seq<char>)| #[trigger]
        after.vectors.contains_key(key) implies is_run(
        after.events,
        key.0,
        key.1,
        after.vectors[key],
    ) by {
        if key != own {
            assert(storage.vectors.contains_key(key));
            assert forall|counter: u64| #[trigger]
                has_event(after.events, key.0, key.1, counter) == has_event(
                    storage.events,
                    key.0,
                    key.1,
                    counter,
                ) by {}
            if has_oversized(after.events, key.0, key.1) {
                let counter = choose|counter: u64|
                    counter > MAX_STORED && #[trigger] has_event(
                        after.events,
                        key.0,
                        key.1,
                        counter,
                    );
                assert(has_event(storage.events, key.0, key.1, counter));
            }
            if has_oversized(storage.events, key.0, key.1) {
                let counter = choose|counter: u64|
                    counter > MAX_STORED && #[trigger] has_event(
                        storage.events,
                        key.0,
                        key.1,
                        counter,
                    );
                assert(has_event(after.events, key.0, key.1, counter));
            }
        }
    }
}

/// The seconds since the Unix epoch, by the system's clock.
pub fn now_unix_secs() -> (now: u64) {
    clock_unix_secs()
}

} // verus!
