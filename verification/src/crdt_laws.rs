//! What holds of the state of a conversation, however its events arrive.

use crate::crdt::{
    adds, body, creates, deletes, is_addition, is_creation, is_deleted, is_ordered, is_read_state,
    is_removed, is_state_of, lemma_first_creation, lemma_last_addition, reads, removes,
    shows_reaction, ConversationView, ReactionView, VisibleReaction,
};
use crate::events::EventBody;
use crate::records::EventRow;
use crate::sorted::{is_selection, text_before, OrderedKey};
use crate::storage_laws::{
    law_added_events_are_there, law_events_are_kept, law_sync_brings_all_events,
};
use crate::storage::{events_keyed, missing_place, EventOrder, StorageView};
use vstd::prelude::*;

verus! {

/// Whether two lists hold the same events, in whatever order and however often.
pub open spec fn same_events(a: Seq<EventRow>, b: Seq<EventRow>) -> bool {
    forall|event: EventRow| #[trigger] a.contains(event) <==> b.contains(event)
}

/// Whether all creations of a message agree with each other, and all additions under one
/// device and count.
pub open spec fn is_coherent(events: Seq<EventRow>) -> bool {
    &&& forall|id: Seq<char>, i: int, j: int|
        0 <= i < events.len() && 0 <= j < events.len() && #[trigger] creates(events[i], id)
            && #[trigger] creates(events[j], id) ==> body(events[i]) == body(events[j])
    &&& forall|key: (Seq<char>, u64), i: int, j: int|
        0 <= i < events.len() && 0 <= j < events.len() && #[trigger] adds(events[i], key)
            && #[trigger] adds(events[j], key) ==> body(events[i]) == body(events[j])
}

proof fn lemma_ordered_is_unique(a: Seq<ReactionView>, b: Seq<ReactionView>)
    requires
        is_ordered(a),
        is_ordered(b),
        forall|shown: ReactionView| #[trigger] a.contains(shown) <==> b.contains(shown),
    ensures
        a == b,
    decreases a.len(),
{
    if a.len() == 0 {
        if b.len() > 0 {
            assert(b.contains(b[0]));
            assert(a.contains(b[0]));
        }
        assert(a =~= b);
    } else {
        assert(a.contains(a.last()));
        assert(b.contains(a.last()));
        assert(b.contains(b.last()));
        assert(a.contains(b.last()));
        let i = choose|i: int| 0 <= i < b.len() && b[i] == a.last();
        let j = choose|j: int| 0 <= j < a.len() && a[j] == b.last();
        VisibleReaction::order_laws(a.last(), b.last(), a.last());
        if i < b.len() - 1 {
            assert(VisibleReaction::before(b[i], b[b.len() - 1]));
            if j < a.len() - 1 {
                assert(VisibleReaction::before(a[j], a[a.len() - 1]));
            }
        }
        assert(a.last() == b.last());
        let rest_a = a.drop_last();
        let rest_b = b.drop_last();
        assert forall|shown: ReactionView| #[trigger]
            rest_a.contains(shown) <==> rest_b.contains(shown) by {
            VisibleReaction::order_laws(shown, shown, shown);
            assert(a.contains(shown) <==> b.contains(shown));
            if rest_a.contains(shown) {
                let k = choose|k: int| 0 <= k < rest_a.len() && rest_a[k] == shown;
                assert(a[k] == shown);
                assert(VisibleReaction::before(a[k], a[a.len() - 1]));
                assert(a.contains(shown));
                let l = choose|l: int| 0 <= l < b.len() && b[l] == shown;
                assert(l < b.len() - 1);
                assert(rest_b[l] == shown);
            }
            if rest_b.contains(shown) {
                let k = choose|k: int| 0 <= k < rest_b.len() && rest_b[k] == shown;
                assert(b[k] == shown);
                assert(VisibleReaction::before(b[k], b[b.len() - 1]));
                assert(b.contains(shown));
                let l = choose|l: int| 0 <= l < a.len() && a[l] == shown;
                assert(l < a.len() - 1);
                assert(rest_a[l] == shown);
            }
        }
        lemma_ordered_is_unique(rest_a, rest_b);
        assert(a =~= rest_a.push(a.last()));
        assert(b =~= rest_b.push(b.last()));
    }
}

/// The position of an event in another list that holds the same events.
proof fn lemma_position(a: Seq<EventRow>, b: Seq<EventRow>, i: int) -> (j: int)
    requires
        forall|event: EventRow| #[trigger] a.contains(event) ==> b.contains(event),
        0 <= i < a.len(),
    ensures
        0 <= j < b.len(),
        b[j] == a[i],
{
    assert(a.contains(a[i]));
    choose|j: int| 0 <= j < b.len() && b[j] == a[i]
}

proof fn lemma_deleted_in(a: Seq<EventRow>, b: Seq<EventRow>, id: Seq<char>)
    requires
        forall|event: EventRow| #[trigger] a.contains(event) ==> b.contains(event),
        is_deleted(a, a.len() as int, id),
    ensures
        is_deleted(b, b.len() as int, id),
{
    let i = choose|i: int| 0 <= i < a.len() && deletes(#[trigger] a[i], id);
    let j = lemma_position(a, b, i);
    assert(deletes(b[j], id));
}

proof fn lemma_removed_in(a: Seq<EventRow>, b: Seq<EventRow>, key: (Seq<char>, u64))
    requires
        forall|event: EventRow| #[trigger] a.contains(event) ==> b.contains(event),
        is_removed(a, a.len() as int, key),
    ensures
        is_removed(b, b.len() as int, key),
{
    let i = choose|i: int| 0 <= i < a.len() && removes(#[trigger] a[i], key);
    let j = lemma_position(a, b, i);
    assert(removes(b[j], key));
}

proof fn lemma_created_in(a: Seq<EventRow>, b: Seq<EventRow>, id: Seq<char>)
    requires
        forall|event: EventRow| #[trigger] a.contains(event) ==> b.contains(event),
        exists|i: int| is_creation(a, a.len() as int, id, i),
    ensures
        exists|i: int| is_creation(b, b.len() as int, id, i),
{
    let i = choose|i: int| is_creation(a, a.len() as int, id, i);
    let j = lemma_position(a, b, i);
    lemma_first_creation(b, b.len() as int, id, j);
}

proof fn lemma_shown_in(
    a: Seq<EventRow>,
    b: Seq<EventRow>,
    id: Seq<char>,
    shown: ReactionView,
)
    requires
        same_events(a, b),
        is_coherent(a),
        shows_reaction(a, a.len() as int, id, shown),
    ensures
        shows_reaction(b, b.len() as int, id, shown),
{
    let key = (shown.device_id, shown.counter);
    if is_removed(b, b.len() as int, key) {
        lemma_removed_in(b, a, key);
    }
    let i = choose|i: int|
        #![trigger a[i]]
        is_addition(a, a.len() as int, key, i) && body(a[i]) == Some(
            crate::events::EventBody::ReactionAdded {
                message_id: id,
                reaction: shown.reaction,
                actor_id: shown.actor_id,
            },
        );
    let j = lemma_position(a, b, i);
    lemma_last_addition(b, b.len() as int, key, j);
    let k = choose|k: int| is_addition(b, b.len() as int, key, k);
    let l = lemma_position(b, a, k);
    assert(adds(a[i], key) && adds(a[l], key));
    assert(body(b[k]) == body(a[i]));
    assert(is_addition(b, b.len() as int, key, k));
}

proof fn lemma_coherent_in(a: Seq<EventRow>, b: Seq<EventRow>)
    requires
        same_events(a, b),
        is_coherent(a),
    ensures
        is_coherent(b),
{
    assert forall|id: Seq<char>, i: int, j: int|
        0 <= i < b.len() && 0 <= j < b.len() && #[trigger] creates(b[i], id) && #[trigger] creates(
            b[j],
            id,
        ) implies body(b[i]) == body(b[j]) by {
        let k = lemma_position(b, a, i);
        let l = lemma_position(b, a, j);
        assert(creates(a[k], id) && creates(a[l], id));
    }
    assert forall|key: (Seq<char>, u64), i: int, j: int|
        0 <= i < b.len() && 0 <= j < b.len() && #[trigger] adds(b[i], key) && #[trigger] adds(
            b[j],
            key,
        ) implies body(b[i]) == body(b[j]) by {
        let k = lemma_position(b, a, i);
        let l = lemma_position(b, a, j);
        assert(adds(a[k], key) && adds(a[l], key));
    }
}

proof fn lemma_read_in(
    s: Map<(Seq<char>, Seq<char>), u64>,
    t: Map<(Seq<char>, Seq<char>), u64>,
    a: Seq<EventRow>,
    b: Seq<EventRow>,
    key: (Seq<char>, Seq<char>),
)
    requires
        forall|event: EventRow| #[trigger] a.contains(event) ==> b.contains(event),
        is_read_state(s, a, a.len() as int),
        is_read_state(t, b, b.len() as int),
        s.contains_key(key),
    ensures
        t.contains_key(key),
        s[key] <= t[key],
{
    let i = choose|i: int| 0 <= i < a.len() && reads(#[trigger] a[i], key, s[key]);
    let j = lemma_position(a, b, i);
    assert(reads(b[j], key, s[key]));
}

/// The state of a conversation depends on which events there are, not on the order in
/// which they arrive nor on how often.
pub proof fn law_same_events_give_same_state(
    a: Seq<EventRow>,
    b: Seq<EventRow>,
    s: ConversationView,
    t: ConversationView,
)
    requires
        same_events(a, b),
        is_coherent(a),
        is_state_of(s, a),
        is_state_of(t, b),
    ensures
        s == t,
{
    lemma_coherent_in(a, b);
    let n = a.len() as int;
    let m = b.len() as int;
    assert forall|id: Seq<char>| #[trigger]
        s.messages.contains_key(id) <==> t.messages.contains_key(id) by {
        if s.messages.contains_key(id) {
            lemma_created_in(a, b, id);
        }
        if t.messages.contains_key(id) {
            lemma_created_in(b, a, id);
        }
    }
    assert forall|id: Seq<char>| #[trigger] s.messages.contains_key(id) implies s.messages[id]
        == t.messages[id] by {
        assert(t.messages.contains_key(id));
        let i = choose|i: int| is_creation(a, n, id, i);
        let j = choose|j: int| is_creation(b, m, id, j);
        assert(is_creation(a, n, id, i) && is_creation(b, m, id, j));
        let k = lemma_position(b, a, j);
        assert(creates(a[i], id) && creates(a[k], id));
        if is_deleted(a, n, id) {
            lemma_deleted_in(a, b, id);
        }
        if is_deleted(b, m, id) {
            lemma_deleted_in(b, a, id);
        }
        let x = s.messages[id].reactions;
        let y = t.messages[id].reactions;
        assert forall|shown: ReactionView| #[trigger] x.contains(shown) <==> y.contains(shown) by {
            if x.contains(shown) {
                lemma_shown_in(a, b, id, shown);
            }
            if y.contains(shown) {
                lemma_shown_in(b, a, id, shown);
            }
        }
        lemma_ordered_is_unique(x, y);
    }
    assert(s.messages =~= t.messages);
    assert forall|id: Seq<char>| #[trigger]
        s.tombstones.contains_key(id) <==> t.tombstones.contains_key(id) by {
        if is_deleted(a, n, id) {
            lemma_deleted_in(a, b, id);
        }
        if is_deleted(b, m, id) {
            lemma_deleted_in(b, a, id);
        }
    }
    assert(s.tombstones =~= t.tombstones);
    assert forall|key: (Seq<char>, Seq<char>)| #[trigger]
        s.read_frontiers.contains_key(key) <==> t.read_frontiers.contains_key(key) by {
        if s.read_frontiers.contains_key(key) {
            lemma_read_in(s.read_frontiers, t.read_frontiers, a, b, key);
        }
        if t.read_frontiers.contains_key(key) {
            lemma_read_in(t.read_frontiers, s.read_frontiers, b, a, key);
        }
    }
    assert forall|key: (Seq<char>, Seq<char>)| #[trigger]
        s.read_frontiers.contains_key(key) implies s.read_frontiers[key]
        == t.read_frontiers[key] by {
        lemma_read_in(s.read_frontiers, t.read_frontiers, a, b, key);
        lemma_read_in(t.read_frontiers, s.read_frontiers, b, a, key);
    }
    assert(s.read_frontiers =~= t.read_frontiers);
}

/// Once a message is deleted it stays deleted, whatever else arrives before or after.
pub proof fn law_deletion_is_final(
    a: Seq<EventRow>,
    b: Seq<EventRow>,
    s: ConversationView,
    t: ConversationView,
    id: Seq<char>,
)
    requires
        forall|event: EventRow| #[trigger] a.contains(event) ==> b.contains(event),
        is_state_of(s, a),
        is_state_of(t, b),
        s.tombstones.contains_key(id),
    ensures
        t.tombstones.contains_key(id),
        t.messages.contains_key(id) ==> t.messages[id].deleted,
{
    lemma_deleted_in(a, b, id);
}

/// Reading positions only advance as events arrive.
pub proof fn law_reading_only_advances(
    a: Seq<EventRow>,
    b: Seq<EventRow>,
    s: ConversationView,
    t: ConversationView,
    key: (Seq<char>, Seq<char>),
)
    requires
        forall|event: EventRow| #[trigger] a.contains(event) ==> b.contains(event),
        is_state_of(s, a),
        is_state_of(t, b),
        s.read_frontiers.contains_key(key),
    ensures
        t.read_frontiers.contains_key(key),
        s.read_frontiers[key] <= t.read_frontiers[key],
{
    lemma_read_in(s.read_frontiers, t.read_frontiers, a, b, key);
}

/// A removed reaction is not shown, whether its removal arrives before or after it.
pub proof fn law_removed_reaction_is_not_shown(
    events: Seq<EventRow>,
    state: ConversationView,
    id: Seq<char>,
    shown: ReactionView,
    i: int,
)
    requires
        is_state_of(state, events),
        0 <= i < events.len(),
        removes(events[i], (shown.device_id, shown.counter)),
        state.messages.contains_key(id),
    ensures
        !state.messages[id].reactions.contains(shown),
{
    assert(is_removed(events, events.len() as int, (shown.device_id, shown.counter)));
}

/// Adding events keeps each under its own device and count.
proof fn lemma_added_events_are_keyed(storage: StorageView, events: Seq<EventRow>)
    requires
        events_keyed(storage.events),
    ensures
        events_keyed(storage.with_events(events).events),
    decreases events.len(),
{
    if events.len() > 0 {
        lemma_added_events_are_keyed(storage, events.drop_last());
    }
}

/// Where an event of a storage came from: it was there before, or it was added.
proof fn lemma_origin(storage: StorageView, events: Seq<EventRow>, key: (Seq<char>, u64))
    requires
        storage.with_events(events).events.contains_key(key),
    ensures
        if storage.events.contains_key(key) {
            storage.with_events(events).events[key] == storage.events[key]
        } else {
            events.contains(storage.with_events(events).events[key])
        },
{
    law_added_events_are_there(storage, events);
    if storage.events.contains_key(key) {
        law_events_are_kept(storage, events, key);
    } else {
        let i = choose|i: int|
            0 <= i < events.len() && (#[trigger] events[i]).device_id == key.0 && events[i].counter
                == key.1 && storage.with_events(events).events[key] == events[i];
        assert(events[i] == storage.with_events(events).events[key]);
    }
}

/// One side of an exchange: every numbered event of the conversation that the sender has,
/// the receiver has afterwards too, and it is the same event.
proof fn lemma_received(
    sender: StorageView,
    receiver: StorageView,
    conversation: Seq<char>,
    sent: Seq<EventRow>,
    key: (Seq<char>, u64),
)
    requires
        events_keyed(sender.events),
        receiver.is_consistent(),
        forall|k: (Seq<char>, u64)|
            sender.events.contains_key(k) && receiver.events.contains_key(k) ==> #[trigger]
                sender.events[k] == #[trigger] receiver.events[k],
        is_selection::<(Seq<char>, u64), EventRow, EventOrder>(
            sent,
            sender.events,
            missing_place(conversation, receiver.vector(conversation)),
        ),
        sender.events.contains_key(key),
        sender.events[key].conversation_id == conversation,
        1 <= key.1,
    ensures
        receiver.with_events(sent).events.contains_key(key),
        receiver.with_events(sent).events[key] == sender.events[key],
{
    law_sync_brings_all_events(sender, receiver, conversation, sent, key);
    lemma_origin(receiver, sent, key);
    let after = receiver.with_events(sent);
    lemma_added_events_are_keyed(receiver, sent);
    if !receiver.events.contains_key(key) {
        let event = after.events[key];
        let i = choose|i: int| 0 <= i < sent.len() && sent[i] == event;
        assert(sender.events.contains_value(sent[i]));
        let k = choose|k: (Seq<char>, u64)|
            sender.events.contains_key(k) && #[trigger] sender.events[k] == sent[i];
        assert(k == key);
    }
}

/// After two replicas of a conversation have sent each other what the other lacked, they
/// show the same state.
pub proof fn law_synced_replicas_converge(
    left: StorageView,
    right: StorageView,
    conversation: Seq<char>,
    to_right: Seq<EventRow>,
    to_left: Seq<EventRow>,
    left_events: Seq<EventRow>,
    right_events: Seq<EventRow>,
    s: ConversationView,
    t: ConversationView,
)
    requires
        left.is_consistent(),
        right.is_consistent(),
        forall|k: (Seq<char>, u64)|
            left.events.contains_key(k) && right.events.contains_key(k) ==> #[trigger]
                left.events[k] == #[trigger] right.events[k],
        is_selection::<(Seq<char>, u64), EventRow, EventOrder>(
            to_right,
            left.events,
            missing_place(conversation, right.vector(conversation)),
        ),
        is_selection::<(Seq<char>, u64), EventRow, EventOrder>(
            to_left,
            right.with_events(to_right).events,
            missing_place(conversation, left.vector(conversation)),
        ),
        is_selection::<(Seq<char>, u64), EventRow, EventOrder>(
            left_events,
            left.with_events(to_left).events,
            missing_place(conversation, Map::empty()),
        ),
        is_selection::<(Seq<char>, u64), EventRow, EventOrder>(
            right_events,
            right.with_events(to_right).events,
            missing_place(conversation, Map::empty()),
        ),
        is_coherent(left_events),
        is_state_of(s, left_events),
        is_state_of(t, right_events),
    ensures
        same_events(left_events, right_events),
        s == t,
{
    let right_after = right.with_events(to_right);
    let left_after = left.with_events(to_left);
    lemma_added_events_are_keyed(right, to_right);
    lemma_added_events_are_keyed(left, to_left);
    assert forall|k: (Seq<char>, u64)|
        right_after.events.contains_key(k) && left.events.contains_key(k) implies #[trigger]
        right_after.events[k] == #[trigger] left.events[k] by {
        lemma_origin(right, to_right, k);
        if !right.events.contains_key(k) {
            let i = choose|i: int| 0 <= i < to_right.len() && to_right[i] == right_after.events[k];
            assert(left.events.contains_value(to_right[i]));
            let l = choose|l: (Seq<char>, u64)|
                left.events.contains_key(l) && #[trigger] left.events[l] == to_right[i];
            assert(l == k);
        }
    }
    let place = missing_place(conversation, Map::empty());
    assert forall|event: EventRow| left_events.contains(event) implies #[trigger]
        right_events.contains(event) by {
        let i = choose|i: int| 0 <= i < left_events.len() && left_events[i] == event;
        assert(left_after.events.contains_value(left_events[i]));
        let k = choose|k: (Seq<char>, u64)|
            left_after.events.contains_key(k) && #[trigger] left_after.events[k] == event;
        assert(place(left_events[i]) is Some);
        lemma_origin(left, to_left, k);
        if left.events.contains_key(k) {
            lemma_received(left, right, conversation, to_right, k);
        } else {
            let j = choose|j: int| 0 <= j < to_left.len() && to_left[j] == event;
            assert(right_after.events.contains_value(to_left[j]));
            let l = choose|l: (Seq<char>, u64)|
                right_after.events.contains_key(l) && #[trigger] right_after.events[l] == event;
            assert(l == k);
        }
        assert(right_after.events[k] == event);
        assert(place(right_after.events[k]) is Some);
    }
    assert forall|event: EventRow| right_events.contains(event) implies #[trigger]
        left_events.contains(event) by {
        let i = choose|i: int| 0 <= i < right_events.len() && right_events[i] == event;
        assert(right_after.events.contains_value(right_events[i]));
        let k = choose|k: (Seq<char>, u64)|
            right_after.events.contains_key(k) && #[trigger] right_after.events[k] == event;
        assert(place(right_events[i]) is Some);
        lemma_received(right_after, left, conversation, to_left, k);
        assert(left_after.events[k] == event);
        assert(place(left_after.events[k]) is Some);
    }
    assert(same_events(left_events, right_events));
    law_same_events_give_same_state(left_events, right_events, s, t);
}

/// The same where both sides first work out what the other lacks and only then take in
/// what they were sent.
pub proof fn law_exchange_at_once_converges(
    left: StorageView,
    right: StorageView,
    conversation: Seq<char>,
    to_right: Seq<EventRow>,
    to_left: Seq<EventRow>,
    left_events: Seq<EventRow>,
    right_events: Seq<EventRow>,
    s: ConversationView,
    t: ConversationView,
)
    requires
        left.is_consistent(),
        right.is_consistent(),
        forall|k: (Seq<char>, u64)|
            left.events.contains_key(k) && right.events.contains_key(k) ==> #[trigger]
                left.events[k] == #[trigger] right.events[k],
        is_selection::<(Seq<char>, u64), EventRow, EventOrder>(
            to_right,
            left.events,
            missing_place(conversation, right.vector(conversation)),
        ),
        is_selection::<(Seq<char>, u64), EventRow, EventOrder>(
            to_left,
            right.events,
            missing_place(conversation, left.vector(conversation)),
        ),
        is_selection::<(Seq<char>, u64), EventRow, EventOrder>(
            left_events,
            left.with_events(to_left).events,
            missing_place(conversation, Map::empty()),
        ),
        is_selection::<(Seq<char>, u64), EventRow, EventOrder>(
            right_events,
            right.with_events(to_right).events,
            missing_place(conversation, Map::empty()),
        ),
        is_coherent(left_events),
        is_state_of(s, left_events),
        is_state_of(t, right_events),
    ensures
        same_events(left_events, right_events),
        s == t,
{
    assert forall|event: EventRow| left_events.contains(event) implies #[trigger]
        right_events.contains(event) by {
        lemma_shared_after_exchange(
            left,
            right,
            conversation,
            to_right,
            to_left,
            left_events,
            right_events,
            event,
        );
    }
    assert forall|event: EventRow| right_events.contains(event) implies #[trigger]
        left_events.contains(event) by {
        lemma_shared_after_exchange(
            right,
            left,
            conversation,
            to_left,
            to_right,
            right_events,
            left_events,
            event,
        );
    }
    assert(same_events(left_events, right_events));
    law_same_events_give_same_state(left_events, right_events, s, t);
}

proof fn lemma_shared_after_exchange(
    left: StorageView,
    right: StorageView,
    conversation: Seq<char>,
    to_right: Seq<EventRow>,
    to_left: Seq<EventRow>,
    left_events: Seq<EventRow>,
    right_events: Seq<EventRow>,
    event: EventRow,
)
    requires
        left.is_consistent(),
        right.is_consistent(),
        forall|k: (Seq<char>, u64)|
            left.events.contains_key(k) && right.events.contains_key(k) ==> #[trigger]
                left.events[k] == #[trigger] right.events[k],
        is_selection::<(Seq<char>, u64), EventRow, EventOrder>(
            to_right,
            left.events,
            missing_place(conversation, right.vector(conversation)),
        ),
        is_selection::<(Seq<char>, u64), EventRow, EventOrder>(
            to_left,
            right.events,
            missing_place(conversation, left.vector(conversation)),
        ),
        is_selection::<(Seq<char>, u64), EventRow, EventOrder>(
            left_events,
            left.with_events(to_left).events,
            missing_place(conversation, Map::empty()),
        ),
        is_selection::<(Seq<char>, u64), EventRow, EventOrder>(
            right_events,
            right.with_events(to_right).events,
            missing_place(conversation, Map::empty()),
        ),
        left_events.contains(event),
    ensures
        right_events.contains(event),
{
    let right_after = right.with_events(to_right);
    let left_after = left.with_events(to_left);
    lemma_added_events_are_keyed(right, to_right);
    lemma_added_events_are_keyed(left, to_left);
    let place = missing_place(conversation, Map::empty());
    let i = choose|i: int| 0 <= i < left_events.len() && left_events[i] == event;
    assert(left_after.events.contains_value(left_events[i]));
    let k = choose|k: (Seq<char>, u64)|
        left_after.events.contains_key(k) && #[trigger] left_after.events[k] == event;
    assert(place(left_events[i]) is Some);
    lemma_origin(left, to_left, k);
    if left.events.contains_key(k) {
        lemma_received(left, right, conversation, to_right, k);
    } else {
        let j = choose|j: int| 0 <= j < to_left.len() && to_left[j] == event;
        assert(right.events.contains_value(to_left[j]));
        let l = choose|l: (Seq<char>, u64)|
            right.events.contains_key(l) && #[trigger] right.events[l] == event;
        assert(l == k);
        law_events_are_kept(right, to_right, k);
    }
    assert(right_after.events[k] == event);
    assert(place(right_after.events[k]) is Some);
}

/// A message that was created is shown, with the author and the contents of its first
/// creation, and none is shown that was not created.
pub proof fn law_created_message_is_shown(
    events: Seq<EventRow>,
    state: ConversationView,
    i: int,
    id: Seq<char>,
    author: Seq<char>,
    payload: Seq<u8>,
)
    requires
        is_state_of(state, events),
        0 <= i < events.len(),
        body(events[i]) == Some(
            EventBody::MessageCreated { message_id: id, author_id: author, payload },
        ),
        forall|j: int|
            0 <= j < i ==> !(body(#[trigger] events[j]) matches Some(
                EventBody::MessageCreated { message_id, .. },
            ) && message_id == id),
    ensures
        state.messages.contains_key(id),
        state.messages[id].message_id == id,
        state.messages[id].author_id == author,
        state.messages[id].payload == payload,
{
    let n = events.len() as int;
    assert forall|j: int| 0 <= j < i implies !creates(#[trigger] events[j], id) by {}
    assert(creates(events[i], id));
    assert(is_creation(events, n, id, i));
    assert(state.messages.contains_key(id));
}

/// No message is shown that was not created.
pub proof fn law_shown_message_was_created(
    events: Seq<EventRow>,
    state: ConversationView,
    id: Seq<char>,
)
    requires
        is_state_of(state, events),
        state.messages.contains_key(id),
    ensures
        exists|i: int|
            0 <= i < events.len() && body(#[trigger] events[i]) == Some(
                EventBody::MessageCreated {
                    message_id: id,
                    author_id: state.messages[id].author_id,
                    payload: state.messages[id].payload,
                },
            ),
{
    let n = events.len() as int;
    let i = choose|i: int| is_creation(events, n, id, i);
    assert(is_creation(events, n, id, i));
}

/// A message counts as deleted exactly if its deletion is among the events; the deletion of
/// one message says nothing of another.
pub proof fn law_deletion_concerns_one_message(
    events: Seq<EventRow>,
    state: ConversationView,
    id: Seq<char>,
)
    requires
        is_state_of(state, events),
    ensures
        ({
            let gone = exists|i: int|
                0 <= i < events.len() && body(#[trigger] events[i]) == Some(
                    EventBody::MessageDeleted { message_id: id },
                );
            &&& state.tombstones.contains_key(id) <==> gone
            &&& state.messages.contains_key(id) ==> (state.messages[id].deleted <==> gone)
        }),
{
    let n = events.len() as int;
    if is_deleted(events, n, id) {
        let i = choose|i: int| 0 <= i < n && deletes(#[trigger] events[i], id);
        assert(body(events[i]) == Some(EventBody::MessageDeleted { message_id: id }));
    }
    if exists|i: int|
        0 <= i < events.len() && body(#[trigger] events[i]) == Some(
            EventBody::MessageDeleted { message_id: id },
        ) {
        let i = choose|i: int|
            0 <= i < events.len() && body(#[trigger] events[i]) == Some(
                EventBody::MessageDeleted { message_id: id },
            );
        assert(deletes(events[i], id));
    }
}

/// A reaction is shown at the message that it was added to, as it was added, unless it was
/// removed itself.
pub proof fn law_added_reaction_is_shown(
    events: Seq<EventRow>,
    state: ConversationView,
    i: int,
    id: Seq<char>,
    reaction: Seq<char>,
    actor: Seq<char>,
)
    requires
        is_state_of(state, events),
        0 <= i < events.len(),
        body(events[i]) == Some(
            EventBody::ReactionAdded { message_id: id, reaction, actor_id: actor },
        ),
        forall|j: int|
            0 <= j < events.len() && j != i ==> (#[trigger] events[j]).device_id
                != events[i].device_id || events[j].counter != events[i].counter,
        forall|j: int|
            0 <= j < events.len() ==> body(#[trigger] events[j]) != Some(
                EventBody::ReactionRemoved {
                    device_id: events[i].device_id,
                    counter: events[i].counter,
                },
            ),
        state.messages.contains_key(id),
    ensures
        state.messages[id].reactions.contains(
            ReactionView {
                reaction,
                actor_id: actor,
                device_id: events[i].device_id,
                counter: events[i].counter,
            },
        ),
{
    let n = events.len() as int;
    let key = (events[i].device_id, events[i].counter);
    let shown = ReactionView {
        reaction,
        actor_id: actor,
        device_id: events[i].device_id,
        counter: events[i].counter,
    };
    assert forall|j: int| i < j < n implies !adds(#[trigger] events[j], key) by {}
    assert(is_addition(events, n, key, i));
    assert(!is_removed(events, n, key));
    assert(shows_reaction(events, n, id, shown));
}

/// Every reaction that is shown was added to that message by that actor.
pub proof fn law_shown_reaction_was_added(
    events: Seq<EventRow>,
    state: ConversationView,
    id: Seq<char>,
    shown: ReactionView,
)
    requires
        is_state_of(state, events),
        state.messages.contains_key(id),
        state.messages[id].reactions.contains(shown),
    ensures
        exists|i: int|
            0 <= i < events.len() && (#[trigger] events[i]).device_id == shown.device_id
                && events[i].counter == shown.counter && body(events[i]) == Some(
                EventBody::ReactionAdded {
                    message_id: id,
                    reaction: shown.reaction,
                    actor_id: shown.actor_id,
                },
            ),
{
    let n = events.len() as int;
    let key = (shown.device_id, shown.counter);
    assert(shows_reaction(events, n, id, shown));
    let i = choose|i: int|
        #![trigger events[i]]
        is_addition(events, n, key, i) && body(events[i]) == Some(
            EventBody::ReactionAdded {
                message_id: id,
                reaction: shown.reaction,
                actor_id: shown.actor_id,
            },
        );
    assert(0 <= i < events.len() && events[i].device_id == shown.device_id);
}

/// The reactions to a message are listed in the order of what was reacted, then of who
/// reacted, and none twice.
pub proof fn law_reactions_are_listed_in_order(
    events: Seq<EventRow>,
    state: ConversationView,
    id: Seq<char>,
    i: int,
    j: int,
)
    requires
        is_state_of(state, events),
        state.messages.contains_key(id),
        0 <= i < j < state.messages[id].reactions.len(),
    ensures
        ({
            let first = state.messages[id].reactions[i];
            let second = state.messages[id].reactions[j];
            &&& first != second
            &&& text_before(first.reaction, second.reaction) || (first.reaction == second.reaction
                && (first.actor_id == second.actor_id || text_before(
                first.actor_id,
                second.actor_id,
            )))
        }),
{
    let first = state.messages[id].reactions[i];
    let second = state.messages[id].reactions[j];
    assert(VisibleReaction::before(first, second));
    VisibleReaction::order_laws(first, first, first);
}

/// What a user has read of a device is the furthest position that any event says, and there
/// is a position only where an event says one.
pub proof fn law_read_position_is_the_furthest(
    events: Seq<EventRow>,
    state: ConversationView,
    actor: Seq<char>,
    device: Seq<char>,
    i: int,
    count: u64,
)
    requires
        is_state_of(state, events),
    ensures
        0 <= i < events.len() && body(events[i]) == Some(
            EventBody::ReadAdvanced { actor_id: actor, read_device_id: device, read_counter: count },
        ) ==> state.read_frontiers.contains_key((actor, device)) && count
            <= state.read_frontiers[(actor, device)],
        state.read_frontiers.contains_key((actor, device)) ==> exists|k: int|
            0 <= k < events.len() && body(#[trigger] events[k]) == Some(
                EventBody::ReadAdvanced {
                    actor_id: actor,
                    read_device_id: device,
                    read_counter: state.read_frontiers[(actor, device)],
                },
            ),
{
    let key = (actor, device);
    if 0 <= i < events.len() && body(events[i]) == Some(
        EventBody::ReadAdvanced { actor_id: actor, read_device_id: device, read_counter: count },
    ) {
        assert(reads(events[i], key, count));
    }
    if state.read_frontiers.contains_key(key) {
        let k = choose|k: int|
            0 <= k < events.len() && reads(#[trigger] events[k], key, state.read_frontiers[key]);
        assert(body(events[k]) == Some(
            EventBody::ReadAdvanced {
                actor_id: actor,
                read_device_id: device,
                read_counter: state.read_frontiers[key],
            },
        ));
    }
}

} // verus!
