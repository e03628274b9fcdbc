//! What holds of a client's storage over several operations.

use crate::history::{has_event, is_run};
use crate::records::{EventRow, MessageRow, OutboxRow, OutboxStatus};
use crate::sorted::is_selection;
use crate::storage::{events_keyed, missing_place, outbox_place, seen_by, EventOrder, StorageView};
use vstd::prelude::*;

verus! {

/// An item stays pending over any delivery attempt, and is pending no more once its
/// receipt is confirmed.
pub proof fn law_outbox_is_pending_until_confirmed(
    storage: StorageView,
    item: OutboxRow,
    attempted: u64,
    confirmed: u64,
)
    requires
        item.status == OutboxStatus::Pending,
    ensures
        ({
            let pending = outbox_place(OutboxStatus::Pending);
            let queued = storage.with_outbox_item(item);
            let tried = queued.with_outbox_attempt(item.message_id, attempted);
            let done = tried.with_outbox_delivered(item.message_id, confirmed);
            &&& pending(queued.outbox[item.message_id]) is Some
            &&& pending(tried.outbox[item.message_id]) is Some
            &&& tried.outbox[item.message_id].payload == item.payload
            &&& pending(done.outbox[item.message_id]) is None
        }),
{
}

/// A message id is accepted once: the second time it is known, and nothing changes.
pub proof fn law_message_is_accepted_once(storage: StorageView, id: Seq<char>, first: u64, later: u64)
    ensures
        storage.with_accepted(id, first).accepted.contains_key(id),
        storage.with_accepted(id, first).with_accepted(id, later) == storage.with_accepted(id, first),
{
}

/// A message that is in the history already does not change it.
pub proof fn law_duplicate_message_changes_nothing(
    storage: StorageView,
    message: MessageRow,
    again: MessageRow,
)
    requires
        message.message_id == again.message_id,
    ensures
        storage.with_message(message).with_message(again) == storage.with_message(message),
{
}

/// An invite is used at most once, and never after its time.
pub proof fn law_invite_is_single_use(
    storage: StorageView,
    code_hash: Seq<char>,
    first: u64,
    later: u64,
)
    requires
        storage.has_open_invite(code_hash, first),
        storage.is_consistent(),
    ensures
        !storage.with_invite_consumed(code_hash, first).has_open_invite(code_hash, later),
        storage.with_invite_consumed(code_hash, first).with_invite_consumed(code_hash, later)
            == storage.with_invite_consumed(code_hash, first),
{
    assert(storage.invites[code_hash].code_hash == code_hash);
}

/// Clearing a history takes the messages of that conversation, all of them and no others.
pub proof fn law_cleared_history_is_gone(
    storage: StorageView,
    conversation: Seq<char>,
    id: Seq<char>,
)
    ensures
        storage.without_history(conversation).messages.contains_key(id) <==> (
        storage.messages.contains_key(id) && storage.messages[id].conversation_id != conversation),
        storage.without_history(conversation).messages.contains_key(id)
            ==> storage.without_history(conversation).messages[id] == storage.messages[id],
{
}

/// A revocation is never replaced by one with a smaller counter, and storing it again
/// changes nothing but the time of the update.
pub proof fn law_revocation_counter_never_falls(
    storage: StorageView,
    account: Seq<char>,
    device: Seq<char>,
    counter: u64,
    revocation: Seq<u8>,
    now: u64,
    again: u64,
)
    ensures
        ({
            let after = storage.with_revocation(account, device, counter, revocation, now);
            let twice = after.with_revocation(account, device, counter, revocation, again);
            &&& crate::history::stored_rank(after.revocations[(account, device)].revocation_counter)
                >= crate::history::stored_rank(counter)
            &&& storage.revocations.contains_key((account, device)) ==> crate::history::stored_rank(
                after.revocations[(account, device)].revocation_counter,
            ) >= crate::history::stored_rank(
                storage.revocations[(account, device)].revocation_counter,
            )
            &&& twice.revocations[(account, device)].revocation
                == after.revocations[(account, device)].revocation
            &&& twice.revocations[(account, device)].revocation_counter
                == after.revocations[(account, device)].revocation_counter
        }),
{
}

/// The events that a storage has are kept when others are added, unchanged.
pub proof fn law_events_are_kept(storage: StorageView, events: Seq<EventRow>, key: (Seq<char>, u64))
    requires
        storage.events.contains_key(key),
    ensures
        storage.with_events(events).events.contains_key(key),
        storage.with_events(events).events[key] == storage.events[key],
    decreases events.len(),
{
    if events.len() > 0 {
        law_events_are_kept(storage, events.drop_last(), key);
    }
}

/// Every event that was added is there, and every event that is there was there before
/// or was added.
pub proof fn law_added_events_are_there(storage: StorageView, events: Seq<EventRow>)
    ensures
        forall|i: int|
            0 <= i < events.len() ==> storage.with_events(events).events.contains_key(
                ((#[trigger] events[i]).device_id, events[i].counter),
            ),
        forall|key: (Seq<char>, u64)| #[trigger]
            storage.with_events(events).events.contains_key(key) ==> storage.events.contains_key(
                key,
            ) || exists|i: int|
                0 <= i < events.len() && (#[trigger] events[i]).device_id == key.0
                    && events[i].counter == key.1
                    && storage.with_events(events).events[key] == events[i],
    decreases events.len(),
{
    if events.len() > 0 {
        let rest = events.drop_last();
        let last = events.last();
        law_added_events_are_there(storage, rest);
        let before = storage.with_events(rest);
        let after = storage.with_events(events);
        assert forall|i: int| 0 <= i < events.len() implies after.events.contains_key(
            ((#[trigger] events[i]).device_id, events[i].counter),
        ) by {
            if i < rest.len() {
                assert(rest[i] == events[i]);
            }
        }
        assert forall|key: (Seq<char>, u64)| #[trigger]
            after.events.contains_key(key) implies storage.events.contains_key(key) || exists|i: int|
            0 <= i < events.len() && (#[trigger] events[i]).device_id == key.0 && events[i].counter
                == key.1 && after.events[key] == events[i] by {
            if !storage.events.contains_key(key) {
                if before.events.contains_key(key) {
                    let i = choose|i: int|
                        0 <= i < rest.len() && (#[trigger] rest[i]).device_id == key.0
                            && rest[i].counter == key.1 && before.events[key] == rest[i];
                    assert(events[i] == rest[i]);
                } else {
                    assert(events[events.len() - 1] == last);
                }
            }
        }
    }
}

/// Events that are all known are not added again: none counts as new and the history
/// stays as it is.
pub proof fn law_known_events_are_not_new(storage: StorageView, events: Seq<EventRow>)
    requires
        forall|i: int|
            0 <= i < events.len() ==> storage.events.contains_key(
                ((#[trigger] events[i]).device_id, events[i].counter),
            ),
    ensures
        storage.new_events(events) == 0,
        storage.with_events(events).events == storage.events,
    decreases events.len(),
{
    if events.len() > 0 {
        let rest = events.drop_last();
        assert forall|i: int| 0 <= i < rest.len() implies storage.events.contains_key(
            ((#[trigger] rest[i]).device_id, rest[i].counter),
        ) by {
            assert(rest[i] == events[i]);
        }
        law_known_events_are_not_new(storage, rest);
        assert(events[events.len() - 1] == events.last());
    }
}

/// A version vector never claims an event that is not there.
pub proof fn law_vector_claims_only_known_events(
    storage: StorageView,
    conversation: Seq<char>,
    device: Seq<char>,
    counter: u64,
)
    requires
        storage.is_consistent(),
        1 <= counter <= seen_by(storage.vector(conversation), device),
    ensures
        has_event(storage.events, conversation, device, counter),
{
    let key = (conversation, device);
    assert(storage.vectors.contains_key(key));
    assert(is_run(storage.events, key.0, key.1, storage.vectors[key]));
}

/// A gap stops the version vector: it does not pass an event that is missing.
pub proof fn law_gap_stops_vector(
    storage: StorageView,
    conversation: Seq<char>,
    device: Seq<char>,
    missing: u64,
)
    requires
        storage.is_consistent(),
        1 <= missing,
        !has_event(storage.events, conversation, device, missing),
    ensures
        seen_by(storage.vector(conversation), device) < missing,
{
    if seen_by(storage.vector(conversation), device) >= missing {
        law_vector_claims_only_known_events(storage, conversation, device, missing);
    }
}

/// After a peer has added what its version vector was found to lack, it has every
/// numbered event of the conversation that the sender has.
pub proof fn law_sync_brings_all_events(
    sender: StorageView,
    receiver: StorageView,
    conversation: Seq<char>,
    missing: Seq<EventRow>,
    key: (Seq<char>, u64),
)
    requires
        events_keyed(sender.events),
        receiver.is_consistent(),
        is_selection::<(Seq<char>, u64), EventRow, EventOrder>(
            missing,
            sender.events,
            missing_place(conversation, receiver.vector(conversation)),
        ),
        has_event(sender.events, conversation, key.0, key.1),
        1 <= key.1,
    ensures
        receiver.with_events(missing).events.contains_key(key),
{
    let vector = receiver.vector(conversation);
    let event = sender.events[key];
    assert(sender.events.contains_key(key));
    assert(event.device_id == key.0 && event.counter == key.1);
    if key.1 <= seen_by(vector, key.0) {
        law_vector_claims_only_known_events(receiver, conversation, key.0, key.1);
        law_events_are_kept(receiver, missing, key);
    } else {
        assert(missing_place(conversation, vector)(sender.events[key]) is Some);
        assert(missing.contains(event));
        let i = choose|i: int| 0 <= i < missing.len() && missing[i] == event;
        law_added_events_are_there(receiver, missing);
        assert(receiver.with_events(missing).events.contains_key(
            (missing[i].device_id, missing[i].counter),
        ));
    }
}

/// What a peer lacks is sent in full and nothing else is: an event of the conversation is
/// sent exactly if the peer's version vector does not cover it.
pub proof fn law_only_missing_events_are_sent(
    sender: StorageView,
    conversation: Seq<char>,
    vector: Map<Seq<char>, u64>,
    missing: Seq<EventRow>,
    key: (Seq<char>, u64),
)
    requires
        events_keyed(sender.events),
        is_selection::<(Seq<char>, u64), EventRow, EventOrder>(
            missing,
            sender.events,
            missing_place(conversation, vector),
        ),
        sender.events.contains_key(key),
    ensures
        missing.contains(sender.events[key]) <==> sender.events[key].conversation_id == conversation
            && key.1 > seen_by(vector, key.0),
{
    let place = missing_place(conversation, vector);
    assert(sender.events[key].device_id == key.0 && sender.events[key].counter == key.1);
    if missing.contains(sender.events[key]) {
        let i = choose|i: int| 0 <= i < missing.len() && missing[i] == sender.events[key];
        assert(place(missing[i]) is Some);
    } else {
        assert(place(sender.events[key]) is None);
    }
}

} // verus!
