//! The visible state of a conversation, computed from its events in any order.

use crate::bytes::{copy_bytes, copy_text, same_text};
use crate::events::{decode_event, decoded, encode_event, EventBody};
use crate::records::{EventRecord, EventRow};
use crate::sorted::{lists_keys, views, OrderedKey, Record, SortedMap};
use vstd::prelude::*;

pub use crate::events::{ConversationEvent, ReactionAddId};

verus! {

/// The place of an event among those of its device.
#[derive(Debug, Clone, PartialEq, Eq, PartialOrd, Ord)]
pub struct EventPosition {
    pub device_id: String,
    pub counter: u64,
}

/// A reaction that is shown at a message.
#[derive(Debug, Clone, PartialEq, Eq, PartialOrd, Ord)]
pub struct VisibleReaction {
    pub reaction: String,
    pub actor_id: String,
    pub add: ReactionAddId,
}

/// The contents of a `VisibleReaction`.
#[verifier::ext_equal]
pub struct ReactionView {
    pub reaction: Seq<char>,
    pub actor_id: Seq<char>,
    pub device_id: Seq<char>,
    pub counter: u64,
}

impl View for VisibleReaction {
    type V = ReactionView;

    open spec fn view(&self) -> ReactionView {
        ReactionView {
            reaction: self.reaction@,
            actor_id: self.actor_id@,
            device_id: self.add.device_id@,
            counter: self.add.counter,
        }
    }
}

impl ReactionView {
    /// What reactions are ordered by: reaction, actor, device, count.
    pub open spec fn order(self) -> ((Seq<char>, Seq<char>), (Seq<char>, u64)) {
        ((self.reaction, self.actor_id), (self.device_id, self.counter))
    }
}

impl OrderedKey for VisibleReaction {
    open spec fn before(a: ReactionView, b: ReactionView) -> bool {
        <((String, String), (String, u64)) as OrderedKey>::before(a.order(), b.order())
    }

    proof fn order_laws(a: ReactionView, b: ReactionView, c: ReactionView) {
        <((String, String), (String, u64)) as OrderedKey>::order_laws(
            a.order(),
            b.order(),
            c.order(),
        );
    }

    fn is_before(&self, other: &VisibleReaction) -> (answer: bool) {
        let own = (
            (self.reaction.clone(), self.actor_id.clone()),
            (self.add.device_id.clone(), self.add.counter),
        );
        let others = (
            (other.reaction.clone(), other.actor_id.clone()),
            (other.add.device_id.clone(), other.add.counter),
        );
        own.is_before(&others)
    }
}

impl Record for VisibleReaction {
    fn duplicate(&self) -> (copy: VisibleReaction) {
        VisibleReaction {
            reaction: self.reaction.clone(),
            actor_id: self.actor_id.clone(),
            add: ReactionAddId {
                device_id: self.add.device_id.clone(),
                counter: self.add.counter,
            },
        }
    }
}

/// A message as it is shown.
#[derive(Debug, Clone, PartialEq, Eq)]
pub struct MessageState {
    pub message_id: String,
    pub author_id: String,
    pub payload: Vec<u8>,
    pub deleted: bool,
    pub reactions: Vec<VisibleReaction>,
}

/// The contents of a `MessageState`.
#[verifier::ext_equal]
pub struct MessageStateView {
    pub message_id: Seq<char>,
    pub author_id: Seq<char>,
    pub payload: Seq<u8>,
    pub deleted: bool,
    pub reactions: Seq<ReactionView>,
}

impl View for MessageState {
    type V = MessageStateView;

    open spec fn view(&self) -> MessageStateView {
        MessageStateView {
            message_id: self.message_id@,
            author_id: self.author_id@,
            payload: self.payload@,
            deleted: self.deleted,
            reactions: views(self.reactions@),
        }
    }
}

/// A conversation as it is shown: its messages by id, the ids that were deleted, and how
/// far each actor has read each device's events.
#[derive(Debug, Clone, PartialEq, Eq)]
pub struct ConversationState {
    pub messages: SortedMap<String, MessageState>,
    pub tombstones: SortedMap<String, ()>,
    pub read_frontiers: SortedMap<(String, String), u64>,
}

/// The contents of a `ConversationState`.
#[verifier::ext_equal]
pub struct ConversationView {
    pub messages: Map<Seq<char>, MessageStateView>,
    pub tombstones: Map<Seq<char>, ()>,
    pub read_frontiers: Map<(Seq<char>, Seq<char>), u64>,
}

impl View for ConversationState {
    type V = ConversationView;

    open spec fn view(&self) -> ConversationView {
        ConversationView {
            messages: self.messages@,
            tombstones: self.tombstones@,
            read_frontiers: self.read_frontiers@,
        }
    }
}

impl ConversationState {
    /// Whether the maps are in order, as every state that was computed here has them.
    pub open spec fn wf(&self) -> bool {
        self.messages.wf() && self.tombstones.wf() && self.read_frontiers.wf()
    }
}

impl Default for ConversationState {
    fn default() -> (state: ConversationState)
        ensures
            state.wf(),
            state@ == (ConversationView {
                messages: Map::empty(),
                tombstones: Map::empty(),
                read_frontiers: Map::empty(),
            }),
    {
        ConversationState {
            messages: SortedMap::new(),
            tombstones: SortedMap::new(),
            read_frontiers: SortedMap::new(),
        }
    }
}

/// What an event says.
pub open spec fn body(event: EventRow) -> Option<EventBody> {
    decoded(event.payload)
}

/// Whether an event creates a message.
pub open spec fn creates(event: EventRow, id: Seq<char>) -> bool {
    body(event) matches Some(EventBody::MessageCreated { message_id, .. }) && message_id == id
}

/// Whether an event deletes a message.
pub open spec fn deletes(event: EventRow, id: Seq<char>) -> bool {
    body(event) matches Some(EventBody::MessageDeleted { message_id }) && message_id == id
}

/// Whether an event adds a reaction under a device and count.
pub open spec fn adds(event: EventRow, key: (Seq<char>, u64)) -> bool {
    body(event) matches Some(EventBody::ReactionAdded { .. }) && event.device_id == key.0
        && event.counter == key.1
}

/// Whether an event removes the reaction that was added under a device and count.
pub open spec fn removes(event: EventRow, key: (Seq<char>, u64)) -> bool {
    body(event) matches Some(EventBody::ReactionRemoved { device_id, counter }) && device_id
        == key.0 && counter == key.1
}

/// Whether an event says that an actor has read a device's events up to a count.
pub open spec fn reads(event: EventRow, key: (Seq<char>, Seq<char>), count: u64) -> bool {
    body(event) matches Some(EventBody::ReadAdvanced { actor_id, read_device_id, read_counter })
        && actor_id == key.0 && read_device_id == key.1 && read_counter == count
}

/// Whether event `i` is the first of the first `n` that creates a message.
pub open spec fn is_creation(events: Seq<EventRow>, n: int, id: Seq<char>, i: int) -> bool {
    &&& 0 <= i < n
    &&& creates(events[i], id)
    &&& forall|j: int| 0 <= j < i ==> !creates(#[trigger] events[j], id)
}

/// Whether one of the first `n` events deletes a message.
pub open spec fn is_deleted(events: Seq<EventRow>, n: int, id: Seq<char>) -> bool {
    exists|i: int| 0 <= i < n && deletes(#[trigger] events[i], id)
}

/// Whether event `i` is the last of the first `n` that adds a reaction under a key.
pub open spec fn is_addition(events: Seq<EventRow>, n: int, key: (Seq<char>, u64), i: int) -> bool {
    &&& 0 <= i < n
    &&& adds(events[i], key)
    &&& forall|j: int| i < j < n ==> !adds(#[trigger] events[j], key)
}

/// Whether one of the first `n` events removes the reaction that was added under a key.
pub open spec fn is_removed(events: Seq<EventRow>, n: int, key: (Seq<char>, u64)) -> bool {
    exists|i: int| 0 <= i < n && removes(#[trigger] events[i], key)
}

/// Whether the first `n` events show a reaction at a message: it was added there, and not
/// removed.
pub open spec fn shows_reaction(
    events: Seq<EventRow>,
    n: int,
    id: Seq<char>,
    shown: ReactionView,
) -> bool {
    let key = (shown.device_id, shown.counter);
    &&& !is_removed(events, n, key)
    &&& exists|i: int|
        #![trigger events[i]]
        is_addition(events, n, key, i) && body(events[i]) == Some(
            EventBody::ReactionAdded {
                message_id: id,
                reaction: shown.reaction,
                actor_id: shown.actor_id,
            },
        )
}

/// Whether reactions are in order, none twice.
pub open spec fn is_ordered(reactions: Seq<ReactionView>) -> bool {
    forall|i: int, j: int|
        0 <= i < j < reactions.len() ==> VisibleReaction::before(reactions[i], reactions[j])
}

/// Whether `state` is what a list of events makes of a conversation.
pub open spec fn is_state_of(state: ConversationView, events: Seq<EventRow>) -> bool {
    let n = events.len() as int;
    &&& forall|id: Seq<char>| #[trigger]
        state.messages.contains_key(id) <==> exists|i: int| is_creation(events, n, id, i)
    &&& forall|id: Seq<char>, i: int|
        #![trigger is_creation(events, n, id, i)]
        is_creation(events, n, id, i) ==> body(events[i]) == Some(
            EventBody::MessageCreated {
                message_id: id,
                author_id: state.messages[id].author_id,
                payload: state.messages[id].payload,
            },
        )
    &&& forall|id: Seq<char>| #[trigger]
        state.messages.contains_key(id) ==> {
            &&& state.messages[id].message_id == id
            &&& state.messages[id].deleted == is_deleted(events, n, id)
            &&& is_ordered(state.messages[id].reactions)
            &&& forall|shown: ReactionView| #[trigger]
                state.messages[id].reactions.contains(shown) <==> shows_reaction(
                    events,
                    n,
                    id,
                    shown,
                )
        }
    &&& forall|id: Seq<char>| #[trigger]
        state.tombstones.contains_key(id) <==> is_deleted(events, n, id)
    &&& is_read_state(state.read_frontiers, events, n)
}

/// Whether `frontiers` holds, for each actor and device, the furthest count that the
/// first `n` events say was read.
pub open spec fn is_read_state(
    frontiers: Map<(Seq<char>, Seq<char>), u64>,
    events: Seq<EventRow>,
    n: int,
) -> bool {
    &&& forall|key: (Seq<char>, Seq<char>)| #[trigger]
        frontiers.contains_key(key) ==> exists|i: int|
            0 <= i < n && reads(#[trigger] events[i], key, frontiers[key])
    &&& forall|key: (Seq<char>, Seq<char>), count: u64, i: int|
        0 <= i < n && #[trigger] reads(events[i], key, count) ==> frontiers.contains_key(key)
            && count <= frontiers[key]
}

/// Files an event of a device under its conversation.
pub fn event_record(
    conversation_id: &str,
    device_id: &str,
    counter: u64,
    event: ConversationEvent,
) -> (record: EventRecord)
    ensures
        record@ == (EventRow {
            device_id: device_id@,
            counter,
            conversation_id: conversation_id@,
            event_type: event@.kind_name(),
            message_id: event@.message_id(),
            payload: event@.encoded(),
            created_at_unix_secs: 0,
        }),
        body(record@) == Some(event@),
{
    let message_id = match &event {
        ConversationEvent::MessageCreated { message_id, .. } => Some(message_id.clone()),
        ConversationEvent::MessageDeleted { message_id } => Some(message_id.clone()),
        ConversationEvent::ReactionAdded { message_id, .. } => Some(message_id.clone()),
        ConversationEvent::ReactionRemoved { .. } => None,
        ConversationEvent::ReadAdvanced { .. } => None,
    };
    let payload = encode_event(&event);
    let len: usize = payload.len();
    proof {
        assert(payload@.take(event@.encoded().len() as int) =~= event@.encoded());
        crate::events::law_event_is_read_back(event@, payload@);
    }
    EventRecord {
        device_id: copy_text(device_id),
        counter,
        conversation_id: copy_text(conversation_id),
        event_type: copy_text(event.event_type()),
        message_id,
        payload,
        created_at_unix_secs: 0,
    }
}

struct Creation {
    author_id: String,
    payload: Vec<u8>,
}

impl View for Creation {
    type V = (Seq<char>, Seq<u8>);

    closed spec fn view(&self) -> (Seq<char>, Seq<u8>) {
        (self.author_id@, self.payload@)
    }
}

struct ReactionAdd {
    message_id: String,
    reaction: String,
    actor_id: String,
}

struct ReactionAddView {
    message_id: Seq<char>,
    reaction: Seq<char>,
    actor_id: Seq<char>,
}

impl View for ReactionAdd {
    type V = ReactionAddView;

    closed spec fn view(&self) -> ReactionAddView {
        ReactionAddView {
            message_id: self.message_id@,
            reaction: self.reaction@,
            actor_id: self.actor_id@,
        }
    }
}

/// What was gathered from the events so far.
struct Gathered {
    creations: SortedMap<String, Creation>,
    tombstones: SortedMap<String, ()>,
    additions: SortedMap<(String, u64), ReactionAdd>,
    removals: SortedMap<(String, u64), ()>,
    frontiers: SortedMap<(String, String), u64>,
}

type Creations = Map<Seq<char>, (Seq<char>, Seq<u8>)>;

type Additions = Map<(Seq<char>, u64), ReactionAddView>;

/// Whether `creations` holds the first creation of each message among the first `n` events.
#[verifier::opaque]
spec fn creations_from(creations: Creations, events: Seq<EventRow>, n: int) -> bool {
    &&& forall|id: Seq<char>| #[trigger]
        creations.contains_key(id) <==> exists|i: int| is_creation(events, n, id, i)
    &&& forall|id: Seq<char>, i: int|
        #![trigger is_creation(events, n, id, i)]
        is_creation(events, n, id, i) ==> body(events[i]) == Some(
            EventBody::MessageCreated {
                message_id: id,
                author_id: creations[id].0,
                payload: creations[id].1,
            },
        )
}

/// Whether `tombstones` holds the messages that the first `n` events delete.
#[verifier::opaque]
spec fn tombstones_from(tombstones: Map<Seq<char>, ()>, events: Seq<EventRow>, n: int) -> bool {
    forall|id: Seq<char>| #[trigger] tombstones.contains_key(id) <==> is_deleted(events, n, id)
}

/// Whether `additions` holds the last addition under each key among the first `n` events.
#[verifier::opaque]
spec fn additions_from(additions: Additions, events: Seq<EventRow>, n: int) -> bool {
    &&& forall|key: (Seq<char>, u64)| #[trigger]
        additions.contains_key(key) <==> exists|i: int| is_addition(events, n, key, i)
    &&& forall|key: (Seq<char>, u64), i: int|
        #![trigger is_addition(events, n, key, i)]
        is_addition(events, n, key, i) ==> body(events[i]) == Some(
            EventBody::ReactionAdded {
                message_id: additions[key].message_id,
                reaction: additions[key].reaction,
                actor_id: additions[key].actor_id,
            },
        )
}

/// Whether `removals` holds the keys whose reactions the first `n` events remove.
#[verifier::opaque]
spec fn removals_from(removals: Map<(Seq<char>, u64), ()>, events: Seq<EventRow>, n: int) -> bool {
    forall|key: (Seq<char>, u64)| #[trigger]
        removals.contains_key(key) <==> is_removed(events, n, key)
}

/// Whether `frontiers` holds the furthest reading positions of the first `n` events.
#[verifier::opaque]
spec fn frontiers_from(
    frontiers: Map<(Seq<char>, Seq<char>), u64>,
    events: Seq<EventRow>,
    n: int,
) -> bool {
    is_read_state(frontiers, events, n)
}

impl Gathered {
    spec fn wf(&self) -> bool {
        &&& self.creations.wf()
        &&& self.tombstones.wf()
        &&& self.additions.wf()
        &&& self.removals.wf()
        &&& self.frontiers.wf()
    }

    spec fn gathers(&self, events: Seq<EventRow>, n: int) -> bool {
        &&& self.wf()
        &&& creations_from(self.creations@, events, n)
        &&& tombstones_from(self.tombstones@, events, n)
        &&& additions_from(self.additions@, events, n)
        &&& removals_from(self.removals@, events, n)
        &&& frontiers_from(self.frontiers@, events, n)
    }

    fn new(Ghost(events): Ghost<Seq<EventRow>>) -> (gathered: Gathered)
        ensures
            gathered.gathers(events, 0),
    {
        proof {
            reveal(creations_from);
            reveal(tombstones_from);
            reveal(additions_from);
            reveal(removals_from);
            reveal(frontiers_from);
        }
        Gathered {
            creations: SortedMap::new(),
            tombstones: SortedMap::new(),
            additions: SortedMap::new(),
            removals: SortedMap::new(),
            frontiers: SortedMap::new(),
        }
    }
}

pub proof fn lemma_first_creation(events: Seq<EventRow>, n: int, id: Seq<char>, at: int)
    requires
        0 <= at < n,
        creates(events[at], id),
    ensures
        exists|i: int| is_creation(events, n, id, i),
    decreases at,
{
    if forall|j: int| 0 <= j < at ==> !creates(#[trigger] events[j], id) {
        assert(is_creation(events, n, id, at));
    } else {
        let j = choose|j: int| 0 <= j < at && creates(#[trigger] events[j], id);
        lemma_first_creation(events, n, id, j);
    }
}

pub proof fn lemma_last_addition(events: Seq<EventRow>, n: int, key: (Seq<char>, u64), at: int)
    requires
        0 <= at < n,
        adds(events[at], key),
    ensures
        exists|i: int| is_addition(events, n, key, i),
    decreases n - at,
{
    if forall|j: int| at < j < n ==> !adds(#[trigger] events[j], key) {
        assert(is_addition(events, n, key, at));
    } else {
        let j = choose|j: int| at < j < n && adds(#[trigger] events[j], key);
        lemma_last_addition(events, n, key, j);
    }
}

/// The creations after one more event.
spec fn next_creations(creations: Creations, event: EventRow) -> Creations {
    match body(event) {
        Some(EventBody::MessageCreated { message_id, author_id, payload }) => if creations.contains_key(
            message_id,
        ) {
            creations
        } else {
            creations.insert(message_id, (author_id, payload))
        },
        _ => creations,
    }
}

proof fn lemma_next_creations(creations: Creations, events: Seq<EventRow>, n: int, m: int)
    requires
        0 <= n,
        m == n + 1,
        creations_from(creations, events, n),
    ensures
        creations_from(next_creations(creations, events[n]), events, m),
{
    reveal(creations_from);
    let after = next_creations(creations, events[n]);
    assert forall|id: Seq<char>, i: int| #[trigger]
        is_creation(events, m, id, i) implies is_creation(events, n, id, i) || (i == n
        && !creations.contains_key(id)) by {
        if i == n && creations.contains_key(id) {
            let j = choose|j: int| is_creation(events, n, id, j);
            assert(creates(events[j], id));
        }
    }
    assert forall|id: Seq<char>| #[trigger] after.contains_key(id) <==> exists|i: int|
        is_creation(events, m, id, i) by {
        if creations.contains_key(id) {
            let i = choose|i: int| is_creation(events, n, id, i);
            assert(is_creation(events, m, id, i));
        } else if after.contains_key(id) {
            assert(creates(events[n], id));
            assert forall|j: int| 0 <= j < n implies !creates(#[trigger] events[j], id) by {
                if creates(events[j], id) {
                    lemma_first_creation(events, n, id, j);
                }
            }
            assert(is_creation(events, m, id, n));
        }
        if exists|i: int| is_creation(events, m, id, i) {
            let i = choose|i: int| is_creation(events, m, id, i);
            if is_creation(events, n, id, i) {
                assert(creations.contains_key(id));
            } else {
                assert(creates(events[n], id));
            }
        }
    }
    assert forall|id: Seq<char>, i: int|
        #![trigger is_creation(events, m, id, i)]
        is_creation(events, m, id, i) implies body(events[i]) == Some(
        EventBody::MessageCreated {
            message_id: id,
            author_id: after[id].0,
            payload: after[id].1,
        },
    ) by {
        if is_creation(events, n, id, i) {
            assert(creations.contains_key(id));
        } else {
            assert(creates(events[n], id));
        }
    }
}

/// The deleted messages after one more event.
spec fn next_tombstones(tombstones: Map<Seq<char>, ()>, event: EventRow) -> Map<Seq<char>, ()> {
    match body(event) {
        Some(EventBody::MessageDeleted { message_id }) => tombstones.insert(message_id, ()),
        _ => tombstones,
    }
}

proof fn lemma_next_tombstones(
    tombstones: Map<Seq<char>, ()>,
    events: Seq<EventRow>,
    n: int,
    m: int,
)
    requires
        0 <= n,
        m == n + 1,
        tombstones_from(tombstones, events, n),
    ensures
        tombstones_from(next_tombstones(tombstones, events[n]), events, m),
{
    reveal(tombstones_from);
    let after = next_tombstones(tombstones, events[n]);
    assert forall|id: Seq<char>| #[trigger] after.contains_key(id) <==> is_deleted(
        events,
        m,
        id,
    ) by {
        if is_deleted(events, n, id) {
            let i = choose|i: int| 0 <= i < n && deletes(#[trigger] events[i], id);
            assert(0 <= i < m && deletes(events[i], id));
        } else if after.contains_key(id) {
            assert(deletes(events[n], id));
        }
        if is_deleted(events, m, id) {
            let i = choose|i: int| 0 <= i < m && deletes(#[trigger] events[i], id);
            if i < n {
                assert(is_deleted(events, n, id));
            }
        }
    }
}

/// The additions after one more event.
spec fn next_additions(additions: Additions, event: EventRow) -> Additions {
    match body(event) {
        Some(EventBody::ReactionAdded { message_id, reaction, actor_id }) => additions.insert(
            (event.device_id, event.counter),
            ReactionAddView { message_id, reaction, actor_id },
        ),
        _ => additions,
    }
}

proof fn lemma_next_additions(additions: Additions, events: Seq<EventRow>, n: int, m: int)
    requires
        0 <= n,
        m == n + 1,
        additions_from(additions, events, n),
    ensures
        additions_from(next_additions(additions, events[n]), events, m),
{
    reveal(additions_from);
    let after = next_additions(additions, events[n]);
    assert forall|key: (Seq<char>, u64), i: int| #[trigger]
        is_addition(events, m, key, i) implies if adds(events[n], key) {
        i == n
    } else {
        is_addition(events, n, key, i)
    } by {
        if adds(events[n], key) && i < n {
            assert(!adds(events[n], key));
        }
    }
    assert forall|key: (Seq<char>, u64)| #[trigger] after.contains_key(key) <==> exists|i: int|
        is_addition(events, m, key, i) by {
        if adds(events[n], key) {
            assert(is_addition(events, m, key, n));
        } else {
            if additions.contains_key(key) {
                let i = choose|i: int| is_addition(events, n, key, i);
                assert(is_addition(events, m, key, i));
            }
            if exists|i: int| is_addition(events, m, key, i) {
                let i = choose|i: int| is_addition(events, m, key, i);
                assert(is_addition(events, n, key, i));
            }
        }
    }
    assert forall|key: (Seq<char>, u64), i: int|
        #![trigger is_addition(events, m, key, i)]
        is_addition(events, m, key, i) implies body(events[i]) == Some(
        EventBody::ReactionAdded {
            message_id: after[key].message_id,
            reaction: after[key].reaction,
            actor_id: after[key].actor_id,
        },
    ) by {
        if !adds(events[n], key) {
            assert(is_addition(events, n, key, i));
        }
    }
}

/// The removals after one more event.
spec fn next_removals(
    removals: Map<(Seq<char>, u64), ()>,
    event: EventRow,
) -> Map<(Seq<char>, u64), ()> {
    match body(event) {
        Some(EventBody::ReactionRemoved { device_id, counter }) => removals.insert(
            (device_id, counter),
            (),
        ),
        _ => removals,
    }
}

proof fn lemma_next_removals(
    removals: Map<(Seq<char>, u64), ()>,
    events: Seq<EventRow>,
    n: int,
    m: int,
)
    requires
        0 <= n,
        m == n + 1,
        removals_from(removals, events, n),
    ensures
        removals_from(next_removals(removals, events[n]), events, m),
{
    reveal(removals_from);
    let after = next_removals(removals, events[n]);
    assert forall|key: (Seq<char>, u64)| #[trigger] after.contains_key(key) <==> is_removed(
        events,
        m,
        key,
    ) by {
        if is_removed(events, n, key) {
            let i = choose|i: int| 0 <= i < n && removes(#[trigger] events[i], key);
            assert(0 <= i < m && removes(events[i], key));
        } else if after.contains_key(key) {
            assert(removes(events[n], key));
        }
        if is_removed(events, m, key) {
            let i = choose|i: int| 0 <= i < m && removes(#[trigger] events[i], key);
            if i < n {
                assert(is_removed(events, n, key));
            }
        }
    }
}

/// The reading positions after one more event.
spec fn next_frontiers(
    frontiers: Map<(Seq<char>, Seq<char>), u64>,
    event: EventRow,
) -> Map<(Seq<char>, Seq<char>), u64> {
    match body(event) {
        Some(EventBody::ReadAdvanced { actor_id, read_device_id, read_counter }) => {
            let key = (actor_id, read_device_id);
            if frontiers.contains_key(key) && frontiers[key] > read_counter {
                frontiers
            } else {
                frontiers.insert(key, read_counter)
            }
        },
        _ => frontiers,
    }
}

proof fn lemma_next_frontiers(
    frontiers: Map<(Seq<char>, Seq<char>), u64>,
    events: Seq<EventRow>,
    n: int,
    m: int,
)
    requires
        0 <= n,
        m == n + 1,
        frontiers_from(frontiers, events, n),
    ensures
        frontiers_from(next_frontiers(frontiers, events[n]), events, m),
{
    reveal(frontiers_from);
    let after = next_frontiers(frontiers, events[n]);
    assert forall|key: (Seq<char>, Seq<char>)| #[trigger]
        after.contains_key(key) implies exists|i: int|
        0 <= i < m && reads(#[trigger] events[i], key, after[key]) by {
        if frontiers.contains_key(key) && frontiers[key] == after[key] {
            let i = choose|i: int| 0 <= i < n && reads(#[trigger] events[i], key, frontiers[key]);
            assert(0 <= i < m && reads(events[i], key, after[key]));
        } else {
            assert(reads(events[n], key, after[key]));
        }
    }
    assert forall|key: (Seq<char>, Seq<char>), count: u64, i: int|
        0 <= i < m && #[trigger] reads(events[i], key, count) implies after.contains_key(key)
        && count <= after[key] by {}
}

/// Takes one more event in.
fn gather(
    gathered: &mut Gathered,
    record: &EventRecord,
    Ghost(events): Ghost<Seq<EventRow>>,
    Ghost(n): Ghost<int>,
)
    requires
        old(gathered).gathers(events, n),
        0 <= n < events.len(),
        events[n] == record@,
    ensures
        final(gathered).gathers(events, n + 1),
{
    proof {
        lemma_next_creations(gathered.creations@, events, n, n + 1);
        lemma_next_tombstones(gathered.tombstones@, events, n, n + 1);
        lemma_next_additions(gathered.additions@, events, n, n + 1);
        lemma_next_removals(gathered.removals@, events, n, n + 1);
        lemma_next_frontiers(gathered.frontiers@, events, n, n + 1);
    }
    match decode_event(record.payload.as_slice()) {
        None => {},
        Some(ConversationEvent::MessageCreated { message_id, author_id, payload }) => {
            if !gathered.creations.contains_key(&message_id) {
                gathered.creations.insert(message_id, Creation { author_id, payload });
            }
        },
        Some(ConversationEvent::MessageDeleted { message_id }) => {
            gathered.tombstones.insert(message_id, ());
        },
        Some(ConversationEvent::ReactionAdded { message_id, reaction, actor_id }) => {
            gathered.additions.insert(
                (record.device_id.clone(), record.counter),
                ReactionAdd { message_id, reaction, actor_id },
            );
        },
        Some(ConversationEvent::ReactionRemoved { reaction_add }) => {
            gathered.removals.insert((reaction_add.device_id, reaction_add.counter), ());
        },
        Some(ConversationEvent::ReadAdvanced { actor_id, read_device_id, read_counter }) => {
            let place = (actor_id, read_device_id);
            let advances = match gathered.frontiers.get(&place) {
                Some(current) => *current <= read_counter,
                None => true,
            };
            if advances {
                gathered.frontiers.insert(place, read_counter);
            }
        },
    }
}

/// The reactions that are shown at a message, in order.
fn reactions_at(gathered: &Gathered, message_id: &str) -> (reactions: Vec<VisibleReaction>)
    requires
        gathered.wf(),
    ensures
        is_ordered(views(reactions@)),
        forall|shown: ReactionView| #[trigger]
            views(reactions@).contains(shown) <==> {
                let key = (shown.device_id, shown.counter);
                &&& gathered.additions@.contains_key(key)
                &&& gathered.additions@[key] == (ReactionAddView {
                    message_id: message_id@,
                    reaction: shown.reaction,
                    actor_id: shown.actor_id,
                })
                &&& !gathered.removals@.contains_key(key)
            },
{
    let total: usize = gathered.additions.len();
    let ghost keys = gathered.additions.keys();
    let mut visible: SortedMap<VisibleReaction, ()> = SortedMap::new();
    let mut i: usize = 0;
    while i < total
        invariant
            gathered.wf(),
            visible.wf(),
            i <= total,
            keys == gathered.additions.keys(),
            total == keys.len(),
            lists_keys::<(String, u64), ReactionAddView>(keys, gathered.additions@),
            forall|shown: ReactionView| #[trigger]
                visible@.contains_key(shown) <==> {
                    let key = (shown.device_id, shown.counter);
                    &&& exists|j: int| 0 <= j < i && #[trigger] keys[j] == key
                    &&& gathered.additions@[key] == (ReactionAddView {
                        message_id: message_id@,
                        reaction: shown.reaction,
                        actor_id: shown.actor_id,
                    })
                    &&& !gathered.removals@.contains_key(key)
                },
        decreases total - i,
    {
        let ghost before = visible@;
        let key = gathered.additions.key_at(i);
        let add = gathered.additions.value_at(i);
        if !gathered.removals.contains_key(key) && same_text(add.message_id.as_str(), message_id) {
            let shown = VisibleReaction {
                reaction: add.reaction.clone(),
                actor_id: add.actor_id.clone(),
                add: ReactionAddId { device_id: key.0.clone(), counter: key.1 },
            };
            visible.insert(shown, ());
        }
        proof {
            assert forall|shown: ReactionView| #[trigger]
                visible@.contains_key(shown) <==> {
                    let other = (shown.device_id, shown.counter);
                    &&& exists|j: int| 0 <= j < i + 1 && #[trigger] keys[j] == other
                    &&& gathered.additions@[other] == (ReactionAddView {
                        message_id: message_id@,
                        reaction: shown.reaction,
                        actor_id: shown.actor_id,
                    })
                    &&& !gathered.removals@.contains_key(other)
                } by {
                let other = (shown.device_id, shown.counter);
                if before.contains_key(shown) {
                    let j = choose|j: int| 0 <= j < i && #[trigger] keys[j] == other;
                    assert(0 <= j < i + 1);
                }
                assert(keys[i as int] == key@);
                if visible@.contains_key(shown) && !before.contains_key(shown) {
                    assert(other == key@);
                }
            }
        }
        i += 1;
    }
    let mut reactions: Vec<VisibleReaction> = Vec::new();
    let count: usize = visible.len();
    let ghost shown_keys = visible.keys();
    let mut k: usize = 0;
    while k < count
        invariant
            visible.wf(),
            k <= count,
            shown_keys == visible.keys(),
            count == shown_keys.len(),
            reactions@.len() == k,
            forall|j: int| 0 <= j < k ==> (#[trigger] reactions@[j])@ == shown_keys[j],
        decreases count - k,
    {
        reactions.push(visible.key_at(k).duplicate());
        k += 1;
    }
    proof {
        assert(views(reactions@) =~= shown_keys);
        assert forall|shown: ReactionView| #[trigger]
            views(reactions@).contains(shown) <==> visible@.contains_key(shown) by {
            if shown_keys.contains(shown) {
                let j = choose|j: int| 0 <= j < shown_keys.len() && shown_keys[j] == shown;
                assert(visible@.contains_key(shown_keys[j]));
            }
        }
        assert forall|shown: ReactionView| #[trigger]
            views(reactions@).contains(shown) <==> {
                let key = (shown.device_id, shown.counter);
                &&& gathered.additions@.contains_key(key)
                &&& gathered.additions@[key] == (ReactionAddView {
                    message_id: message_id@,
                    reaction: shown.reaction,
                    actor_id: shown.actor_id,
                })
                &&& !gathered.removals@.contains_key(key)
            } by {
            let key = (shown.device_id, shown.counter);
            if visible@.contains_key(shown) {
                let j = choose|j: int| 0 <= j < total && #[trigger] keys[j] == key;
                assert(gathered.additions@.contains_key(keys[j]));
            }
            if gathered.additions@.contains_key(key) {
                assert(keys.contains(key));
                let j = choose|j: int| 0 <= j < keys.len() && keys[j] == key;
                assert(keys[j] == key);
            }
        }
    }
    reactions
}

/// The state that a list of events makes of a conversation. Events that cannot be read
/// are passed over; the first creation of a message counts; a deletion holds whether it
/// comes before or after; reading positions only advance.
pub fn materialize_conversation(events: &[EventRecord]) -> (state: ConversationState)
    ensures
        state.wf(),
        is_state_of(state@, views(events@)),
{
    let ghost rows = views(events@);
    let mut gathered = Gathered::new(Ghost(rows));
    let mut i: usize = 0;
    while i < events.len()
        invariant
            i <= events@.len(),
            rows == views(events@),
            gathered.gathers(rows, i as int),
        decreases events@.len() - i,
    {
        assert(rows[i as int] == events@[i as int]@);
        gather(&mut gathered, &events[i], Ghost(rows), Ghost(i as int));
        i += 1;
    }
    let ghost n = rows.len() as int;
    let total: usize = gathered.creations.len();
    let ghost ids = gathered.creations.keys();
    let mut messages: SortedMap<String, MessageState> = SortedMap::new();
    let mut k: usize = 0;
    while k < total
        invariant
            n == rows.len(),
            gathered.gathers(rows, n),
            messages.wf(),
            ids == gathered.creations.keys(),
            k <= total,
            total == ids.len(),
            lists_keys::<String, (Seq<char>, Seq<u8>)>(ids, gathered.creations@),
            forall|id: Seq<char>| #[trigger]
                messages@.contains_key(id) <==> exists|j: int| 0 <= j < k && #[trigger] ids[j] == id,
            forall|id: Seq<char>| #[trigger]
                messages@.contains_key(id) ==> is_message_of(messages@[id], gathered, rows, id),
        decreases total - k,
    {
        let ghost before = messages@;
        let message_id = gathered.creations.key_at(k);
        let creation = gathered.creations.value_at(k);
        let deleted = gathered.tombstones.contains_key(message_id);
        let reactions = reactions_at(&gathered, message_id.as_str());
        let shown = MessageState {
            message_id: message_id.clone(),
            author_id: creation.author_id.clone(),
            payload: copy_bytes(creation.payload.as_slice()),
            deleted,
            reactions,
        };
        proof {
            reveal(tombstones_from);
            lemma_reactions(shown@.reactions, gathered, rows, message_id@);
        }
        messages.insert(message_id.clone(), shown);
        proof {
            assert forall|id: Seq<char>| #[trigger]
                messages@.contains_key(id) <==> exists|j: int|
                    0 <= j < k + 1 && #[trigger] ids[j] == id by {
                if before.contains_key(id) {
                    let j = choose|j: int| 0 <= j < k && #[trigger] ids[j] == id;
                    assert(0 <= j < k + 1);
                }
                assert(ids[k as int] == message_id@);
            }
        }
        k += 1;
    }
    proof {
        reveal(creations_from);
        reveal(tombstones_from);
        reveal(frontiers_from);
        assert forall|id: Seq<char>| #[trigger]
            messages@.contains_key(id) <==> gathered.creations@.contains_key(id) by {
            if messages@.contains_key(id) {
                let j = choose|j: int| 0 <= j < total && #[trigger] ids[j] == id;
                assert(gathered.creations@.contains_key(ids[j]));
            }
            if gathered.creations@.contains_key(id) {
                assert(ids.contains(id));
                let j = choose|j: int| 0 <= j < ids.len() && ids[j] == id;
                assert(ids[j] == id);
            }
        }
        assert forall|id: Seq<char>, j: int|
            #![trigger is_creation(rows, n, id, j)]
            is_creation(rows, n, id, j) implies body(rows[j]) == Some(
            EventBody::MessageCreated {
                message_id: id,
                author_id: messages@[id].author_id,
                payload: messages@[id].payload,
            },
        ) by {
            assert(gathered.creations@.contains_key(id));
            assert(messages@.contains_key(id));
        }
    }
    ConversationState {
        messages,
        tombstones: gathered.tombstones,
        read_frontiers: gathered.frontiers,
    }
}

/// Whether a message is shown as the gathered events have it.
spec fn is_message_of(
    message: MessageStateView,
    gathered: Gathered,
    events: Seq<EventRow>,
    id: Seq<char>,
) -> bool {
    &&& message.message_id == id
    &&& message.author_id == gathered.creations@[id].0
    &&& message.payload == gathered.creations@[id].1
    &&& message.deleted == is_deleted(events, events.len() as int, id)
    &&& is_ordered(message.reactions)
    &&& forall|shown: ReactionView| #[trigger]
        message.reactions.contains(shown) <==> shows_reaction(
            events,
            events.len() as int,
            id,
            shown,
        )
}

proof fn lemma_reactions(
    reactions: Seq<ReactionView>,
    gathered: Gathered,
    events: Seq<EventRow>,
    id: Seq<char>,
)
    requires
        gathered.gathers(events, events.len() as int),
        forall|shown: ReactionView| #[trigger]
            reactions.contains(shown) <==> {
                let key = (shown.device_id, shown.counter);
                &&& gathered.additions@.contains_key(key)
                &&& gathered.additions@[key] == (ReactionAddView {
                    message_id: id,
                    reaction: shown.reaction,
                    actor_id: shown.actor_id,
                })
                &&& !gathered.removals@.contains_key(key)
            },
    ensures
        forall|shown: ReactionView| #[trigger]
            reactions.contains(shown) <==> shows_reaction(
                events,
                events.len() as int,
                id,
                shown,
            ),
{
    reveal(additions_from);
    reveal(removals_from);
    let n = events.len() as int;
    assert forall|shown: ReactionView| #[trigger]
        reactions.contains(shown) <==> shows_reaction(events, n, id, shown) by {
        let key = (shown.device_id, shown.counter);
        if reactions.contains(shown) {
            assert(gathered.additions@.contains_key(key));
            let i = choose|i: int| is_addition(events, n, key, i);
            assert(is_addition(events, n, key, i));
            assert(body(events[i]) == Some(
                EventBody::ReactionAdded {
                    message_id: id,
                    reaction: shown.reaction,
                    actor_id: shown.actor_id,
                },
            ));
        }
        if shows_reaction(events, n, id, shown) {
            let i = choose|i: int|
                #![trigger events[i]]
                is_addition(events, n, key, i) && body(events[i]) == Some(
                    EventBody::ReactionAdded {
                        message_id: id,
                        reaction: shown.reaction,
                        actor_id: shown.actor_id,
                    },
                );
            assert(is_addition(events, n, key, i));
            assert(gathered.additions@.contains_key(key));
        }
    }
}

} // verus!
