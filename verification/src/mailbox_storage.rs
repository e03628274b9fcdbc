//! What an untrusted mailbox keeps for peers that are away: opaque encrypted envelopes,
//! a limited number of them, each until it is fetched and acknowledged or expires.

use crate::bytes::{copy_text, same_text};
use crate::history::{rank_stored, stored_rank};
use crate::primitives::clock_unix_secs;
use crate::sorted::{
    count_where, is_selection, keys_where, lists_keys, option_view, select, views, OrderedKey,
    Record, SortedMap,
};
use vstd::prelude::*;

pub use crate::records::{EnvelopeRow, MailboxEnvelopeRecord};

verus! {

/// What became of a deposited envelope.
#[derive(Debug, Clone, Copy, PartialEq, Eq, Structural)]
pub enum EnvelopeStatus {
    Pending,
    Delivered,
    Expired,
}

/// Why a mailbox refuses a deposit.
#[derive(Debug, Clone, PartialEq, Eq, Structural)]
pub enum MailboxError {
    Full,
}

impl MailboxError {
    pub fn message(&self) -> (text: &'static str)
        ensures
            text@ == "mailbox storage is full"@,
    {
        "mailbox storage is full"
    }
}

/// A deposited envelope.
#[derive(Debug, Clone, PartialEq, Eq)]
pub struct StoredEnvelope {
    pub envelope: MailboxEnvelopeRecord,
    pub status: EnvelopeStatus,
    pub delivered_at_unix_secs: Option<u64>,
}

/// The contents of a `StoredEnvelope`.
#[verifier::ext_equal]
pub struct StoredEnvelopeRow {
    pub envelope: EnvelopeRow,
    pub status: EnvelopeStatus,
    pub delivered_at_unix_secs: Option<u64>,
}

impl View for StoredEnvelope {
    type V = StoredEnvelopeRow;

    open spec fn view(&self) -> StoredEnvelopeRow {
        StoredEnvelopeRow {
            envelope: self.envelope@,
            status: self.status,
            delivered_at_unix_secs: self.delivered_at_unix_secs,
        }
    }
}

impl Record for StoredEnvelope {
    fn duplicate(&self) -> (copy: StoredEnvelope) {
        StoredEnvelope {
            envelope: self.envelope.duplicate(),
            status: self.status,
            delivered_at_unix_secs: self.delivered_at_unix_secs,
        }
    }
}

impl EnvelopeRow {
    /// Whether the envelope's time is over.
    pub open spec fn is_over(self, now: u64) -> bool {
        self.expires_at_unix_secs matches Some(expires) && stored_rank(expires) <= stored_rank(now)
    }
}

impl StoredEnvelopeRow {
    /// The envelope once time has come to `now`: a pending one whose time is over expires.
    pub open spec fn aged(self, now: u64) -> StoredEnvelopeRow {
        if self.status == EnvelopeStatus::Pending && self.envelope.is_over(now) {
            StoredEnvelopeRow { status: EnvelopeStatus::Expired, ..self }
        } else {
            self
        }
    }
}

/// The contents of a `MailboxStorage`.
#[verifier::ext_equal]
pub struct MailboxView {
    pub envelopes: Map<Seq<char>, StoredEnvelopeRow>,
    pub max_pending_envelopes: usize,
}

/// The order in which envelopes are handed out: time of creation, then id.
pub type EnvelopeOrder = (u64, String);

/// The place of an envelope that can be fetched.
pub open spec fn fetch_place(token: Seq<char>, now: u64) -> spec_fn(StoredEnvelopeRow) -> Option<
    (u64, Seq<char>),
> {
    |row: StoredEnvelopeRow|
        if row.envelope.recipient_token == token && row.status == EnvelopeStatus::Pending
            && !row.envelope.is_over(now) {
            Some((stored_rank(row.envelope.created_at_unix_secs), row.envelope.message_id))
        } else {
            None
        }
}

/// Whether an envelope waits to be fetched and acknowledged.
pub open spec fn is_pending() -> spec_fn(StoredEnvelopeRow) -> bool {
    |row: StoredEnvelopeRow| row.status == EnvelopeStatus::Pending
}

/// The envelopes of stored rows.
pub open spec fn envelopes_of(rows: Seq<StoredEnvelopeRow>) -> Seq<EnvelopeRow> {
    rows.map_values(|row: StoredEnvelopeRow| row.envelope)
}

impl MailboxView {
    /// Every envelope stands under its own id.
    pub open spec fn is_consistent(self) -> bool {
        forall|key: Seq<char>| #[trigger]
            self.envelopes.contains_key(key) ==> self.envelopes[key].envelope.message_id == key
    }

    /// The mailbox once time has come to `now`.
    pub open spec fn aged(self, now: u64) -> MailboxView {
        MailboxView {
            envelopes: self.envelopes.map_values(|row: StoredEnvelopeRow| row.aged(now)),
            ..self
        }
    }

    /// The ids of the envelopes that wait.
    pub open spec fn pending(self) -> Set<Seq<char>> {
        keys_where(self.envelopes, is_pending())
    }

    /// Whether a deposit at time `now` is refused: the mailbox is full, and the envelope
    /// is not one that it knows.
    pub open spec fn refuses(self, envelope: EnvelopeRow, now: u64) -> bool {
        &&& self.aged(now).pending().len() >= self.max_pending_envelopes
        &&& !self.envelopes.contains_key(envelope.message_id)
    }

    /// The mailbox after a deposit: a new envelope is added, a known one is not.
    pub open spec fn with_deposit(self, envelope: EnvelopeRow, now: u64) -> MailboxView {
        let aged = self.aged(now);
        if self.refuses(envelope, now) || self.envelopes.contains_key(envelope.message_id) {
            aged
        } else {
            MailboxView {
                envelopes: aged.envelopes.insert(
                    envelope.message_id,
                    StoredEnvelopeRow {
                        envelope,
                        status: EnvelopeStatus::Pending,
                        delivered_at_unix_secs: None,
                    },
                ),
                ..aged
            }
        }
    }

    /// The mailbox after a retrieval was acknowledged.
    pub open spec fn with_acknowledged(self, message_id: Seq<char>, now: u64) -> MailboxView {
        if self.envelopes.contains_key(message_id) {
            MailboxView {
                envelopes: self.envelopes.insert(
                    message_id,
                    StoredEnvelopeRow {
                        status: EnvelopeStatus::Delivered,
                        delivered_at_unix_secs: Some(now),
                        ..self.envelopes[message_id]
                    },
                ),
                ..self
            }
        } else {
            self
        }
    }
}

/// The envelopes of a mailbox.
pub struct MailboxStorage {
    pub envelopes: SortedMap<String, StoredEnvelope>,
    pub max_pending_envelopes: usize,
}

impl View for MailboxStorage {
    type V = MailboxView;

    open spec fn view(&self) -> MailboxView {
        MailboxView {
            envelopes: self.envelopes@,
            max_pending_envelopes: self.max_pending_envelopes,
        }
    }
}

impl MailboxStorage {
    /// Whether the table is in order, as every mailbox that was built here keeps it.
    pub open spec fn wf(&self) -> bool {
        self.envelopes.wf() && self@.is_consistent()
    }

    /// An empty mailbox that holds up to `max_pending_envelopes` waiting envelopes.
    pub fn open_in_memory(max_pending_envelopes: usize) -> (mailbox: MailboxStorage)
        ensures
            mailbox.wf(),
            mailbox@ == (MailboxView { envelopes: Map::empty(), max_pending_envelopes }),
    {
        MailboxStorage { envelopes: SortedMap::new(), max_pending_envelopes }
    }

    /// Takes an envelope in, and says whether it is new. A full mailbox refuses envelopes
    /// that it does not know.
    pub fn deposit(&mut self, envelope: &MailboxEnvelopeRecord, now: u64) -> (deposited: Result<
        bool,
        MailboxError,
    >)
        requires
            old(self).wf(),
        ensures
            final(self).wf(),
            final(self)@ == old(self)@.with_deposit(envelope@, now),
            match deposited {
                Ok(inserted) => !old(self)@.refuses(envelope@, now) && inserted == !old(
                    self,
                )@.envelopes.contains_key(envelope@.message_id),
                Err(error) => old(self)@.refuses(envelope@, now) && error == MailboxError::Full,
            },
    {
        self.expire(now);
        let known = self.has_envelope(envelope.message_id.as_str());
        if self.pending_count() >= self.max_pending_envelopes && !known {
            return Err(MailboxError::Full);
        }
        if known {
            return Ok(false);
        }
        self.envelopes.insert(
            envelope.message_id.clone(),
            StoredEnvelope {
                envelope: envelope.duplicate(),
                status: EnvelopeStatus::Pending,
                delivered_at_unix_secs: None,
            },
        );
        Ok(true)
    }

    /// The envelopes that wait for a recipient, the oldest first. They stay until their
    /// retrieval is acknowledged.
    pub fn fetch_pending(&mut self, recipient_token: &str, now: u64) -> (fetched: Vec<
        MailboxEnvelopeRecord,
    >)
        requires
            old(self).wf(),
        ensures
            final(self).wf(),
            final(self)@ == old(self)@.aged(now),
            exists|rows: Seq<StoredEnvelopeRow>|
                is_selection::<Seq<char>, StoredEnvelopeRow, EnvelopeOrder>(
                    rows,
                    old(self)@.aged(now).envelopes,
                    fetch_place(recipient_token@, now),
                ) && views(fetched@) == #[trigger] envelopes_of(rows),
    {
        self.expire(now);
        let place = |row: &StoredEnvelope| -> (place: Option<EnvelopeOrder>)
            ensures
                option_view(place) == fetch_place(recipient_token@, now)(row@),
            {
                let over = match row.envelope.expires_at_unix_secs {
                    Some(expires) => rank_stored(expires) <= rank_stored(now),
                    None => false,
                };
                if same_text(row.envelope.recipient_token.as_str(), recipient_token) && row.status
                    == EnvelopeStatus::Pending && !over {
                    Some(
                        (
                            rank_stored(row.envelope.created_at_unix_secs),
                            row.envelope.message_id.clone(),
                        ),
                    )
                } else {
                    None
                }
            };
        let rows = select(&self.envelopes, place, Ghost(fetch_place(recipient_token@, now)));
        let mut fetched: Vec<MailboxEnvelopeRecord> = Vec::new();
        let mut i: usize = 0;
        while i < rows.len()
            invariant
                i <= rows@.len(),
                fetched@.len() == i,
                forall|j: int| 0 <= j < i ==> (#[trigger] fetched@[j])@ == rows@[j]@.envelope,
            decreases rows@.len() - i,
        {
            fetched.push(rows[i].envelope.duplicate());
            i += 1;
        }
        assert(views(fetched@) =~= envelopes_of(views(rows@)));
        fetched
    }

    /// Notes that an envelope has reached its recipient.
    pub fn acknowledge_retrieval(&mut self, message_id: &str, now: u64)
        requires
            old(self).wf(),
        ensures
            final(self).wf(),
            final(self)@ == old(self)@.with_acknowledged(message_id@, now),
    {
        let key = copy_text(message_id);
        let mut row = match self.envelopes.get(&key) {
            Some(row) => row.duplicate(),
            None => {
                return;
            },
        };
        row.status = EnvelopeStatus::Delivered;
        row.delivered_at_unix_secs = Some(now);
        self.envelopes.insert(key, row);
    }

    /// How many envelopes wait.
    pub fn pending_count(&self) -> (count: usize)
        requires
            self.wf(),
        ensures
            count == self@.pending().len(),
            self@.pending().finite(),
    {
        let pending = |row: &StoredEnvelope| -> (answer: bool)
            ensures
                answer == is_pending()(row@),
            { row.status == EnvelopeStatus::Pending };
        count_where(&self.envelopes, pending, Ghost(is_pending()))
    }

    /// Lets the waiting envelopes expire whose time is over.
    pub fn expire(&mut self, now: u64)
        requires
            old(self).wf(),
        ensures
            final(self).wf(),
            final(self)@ == old(self)@.aged(now),
    {
        let total: usize = self.envelopes.len();
        let ghost keys = self.envelopes.keys();
        let ghost before = self.envelopes@;
        let mut aged: SortedMap<String, StoredEnvelope> = SortedMap::new();
        let mut i: usize = 0;
        while i < total
            invariant
                self.wf(),
                self@ == old(self)@,
                aged.wf(),
                before == self.envelopes@,
                keys == self.envelopes.keys(),
                i <= total,
                total == keys.len(),
                lists_keys::<String, StoredEnvelopeRow>(keys, before),
                forall|key: Seq<char>| #[trigger]
                    aged@.contains_key(key) ==> before.contains_key(key) && aged@[key]
                        == before[key].aged(now),
                forall|j: int| 0 <= j < i ==> aged@.contains_key(#[trigger] keys[j]),
            decreases total - i,
        {
            let mut row = self.envelopes.value_at(i).duplicate();
            let over = match row.envelope.expires_at_unix_secs {
                Some(expires) => rank_stored(expires) <= rank_stored(now),
                None => false,
            };
            if row.status == EnvelopeStatus::Pending && over {
                row.status = EnvelopeStatus::Expired;
            }
            aged.insert(self.envelopes.key_at(i).clone(), row);
            i += 1;
        }
        proof {
            let wanted = before.map_values(|row: StoredEnvelopeRow| row.aged(now));
            assert forall|key: Seq<char>| #[trigger]
                aged@.contains_key(key) <==> wanted.contains_key(key) by {
                if before.contains_key(key) {
                    assert(keys.contains(key));
                    let j = choose|j: int| 0 <= j < keys.len() && keys[j] == key;
                    assert(aged@.contains_key(keys[j]));
                }
            }
            assert(aged@ =~= wanted);
        }
        self.envelopes = aged;
        assert(self@.is_consistent()) by {
            assert forall|key: Seq<char>| #[trigger]
                self@.envelopes.contains_key(key) implies self@.envelopes[key].envelope.message_id
                == key by {
                assert(before.contains_key(key));
            }
        }
    }

    fn has_envelope(&self, message_id: &str) -> (found: bool)
        requires
            self.wf(),
        ensures
            found == self@.envelopes.contains_key(message_id@),
    {
        self.envelopes.contains_key(&copy_text(message_id))
    }
}

/// The seconds since the Unix epoch, by the system's clock.
pub fn mailbox_now_unix_secs() -> (now: u64) {
    clock_unix_secs()
}

/// Ageing leaves no more envelopes waiting than before.
proof fn lemma_aged_pending(mailbox: MailboxView, now: u64)
    requires
        mailbox.pending().finite(),
    ensures
        mailbox.aged(now).pending().subset_of(mailbox.pending()),
        mailbox.aged(now).pending().finite(),
        mailbox.aged(now).pending().len() <= mailbox.pending().len(),
{
    let fewer = mailbox.aged(now).pending();
    assert(fewer.subset_of(mailbox.pending()));
    vstd::set_lib::lemma_len_subset(fewer, mailbox.pending());
}

/// Deposits never make more envelopes wait than the mailbox may hold.
pub proof fn law_deposit_keeps_limit(mailbox: MailboxView, envelope: EnvelopeRow, now: u64)
    requires
        mailbox.pending().finite(),
        mailbox.pending().len() <= mailbox.max_pending_envelopes,
    ensures
        mailbox.with_deposit(envelope, now).pending().finite(),
        mailbox.with_deposit(envelope, now).pending().len() <= mailbox.max_pending_envelopes,
{
    lemma_aged_pending(mailbox, now);
    let aged = mailbox.aged(now);
    let after = mailbox.with_deposit(envelope, now);
    if !mailbox.refuses(envelope, now) && !mailbox.envelopes.contains_key(envelope.message_id) {
        assert(after.pending() =~= aged.pending().insert(envelope.message_id));
    }
}

/// Depositing an envelope again changes nothing but the passing of time.
pub proof fn law_deposit_is_idempotent(mailbox: MailboxView, envelope: EnvelopeRow, now: u64)
    requires
        !mailbox.refuses(envelope, now),
    ensures
        !mailbox.with_deposit(envelope, now).refuses(envelope, now),
        mailbox.with_deposit(envelope, now).with_deposit(envelope, now).envelopes
            == mailbox.with_deposit(envelope, now).aged(now).envelopes,
{
    assert(mailbox.with_deposit(envelope, now).envelopes.contains_key(envelope.message_id));
}

/// Fetching takes nothing away: what waits before a fetch and is not over waits after it.
pub proof fn law_fetch_keeps_envelopes(mailbox: MailboxView, id: Seq<char>, now: u64)
    requires
        mailbox.envelopes.contains_key(id),
        mailbox.envelopes[id].status == EnvelopeStatus::Pending,
        !mailbox.envelopes[id].envelope.is_over(now),
    ensures
        mailbox.aged(now).envelopes.contains_key(id),
        mailbox.aged(now).envelopes[id] == mailbox.envelopes[id],
        fetch_place(mailbox.envelopes[id].envelope.recipient_token, now)(
            mailbox.aged(now).envelopes[id],
        ) is Some,
{
}

/// An acknowledged envelope is never handed out again, nor taken in again.
pub proof fn law_acknowledged_is_not_fetched(
    mailbox: MailboxView,
    id: Seq<char>,
    token: Seq<char>,
    acknowledged: u64,
    now: u64,
)
    requires
        mailbox.envelopes.contains_key(id),
    ensures
        ({
            let after = mailbox.with_acknowledged(id, acknowledged).aged(now);
            &&& after.envelopes[id].status == EnvelopeStatus::Delivered
            &&& fetch_place(token, now)(after.envelopes[id]) is None
        }),
{
}

/// An envelope whose time is over is not handed out.
pub proof fn law_expired_is_not_fetched(
    mailbox: MailboxView,
    id: Seq<char>,
    token: Seq<char>,
    now: u64,
)
    requires
        mailbox.envelopes.contains_key(id),
        mailbox.envelopes[id].envelope.is_over(now),
    ensures
        fetch_place(token, now)(mailbox.aged(now).envelopes[id]) is None,
{
}

} // verus!
