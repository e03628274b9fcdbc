//! The event history of a conversation: which events a device's unbroken run consists of.

use crate::bytes::{copy_text, same_text};
use crate::records::{EventRecord, EventRow};
use crate::sorted::{lists_keys, SortedMap};
use vstd::prelude::*;

verus! {

/// Events by the device that made them and the device's own count.
pub type EventTable = SortedMap<(String, u64), EventRecord>;

/// The contents of an `EventTable`.
pub type Events = Map<(Seq<char>, u64), EventRow>;

/// The greatest count that is stored as it is; a greater one is stored as a negative
/// number.
pub const MAX_STORED: u64 = 0x7fff_ffff_ffff_ffff;

/// The place of a number among the signed numbers as which it is stored.
pub open spec fn stored_rank(value: u64) -> u64 {
    if value <= MAX_STORED {
        (value + 0x8000_0000_0000_0000) as u64
    } else {
        (value - 0x8000_0000_0000_0000) as u64
    }
}

/// The place of a number among the signed numbers as which it is stored.
pub fn rank_stored(value: u64) -> (rank: u64)
    ensures
        rank == stored_rank(value),
{
    if value <= MAX_STORED {
        value + 0x8000_0000_0000_0000
    } else {
        value - 0x8000_0000_0000_0000
    }
}

/// Whether the history of a conversation holds event `counter` of a device.
pub open spec fn has_event(
    events: Events,
    conversation: Seq<char>,
    device: Seq<char>,
    counter: u64,
) -> bool {
    events.contains_key((device, counter)) && events[(device, counter)].conversation_id
        == conversation
}

/// Whether some count of the device is too great to be stored as it is.
pub open spec fn has_oversized(events: Events, conversation: Seq<char>, device: Seq<char>) -> bool {
    exists|counter: u64|
        counter > MAX_STORED && #[trigger] has_event(events, conversation, device, counter)
}

/// Whether the device's events one to `count`, and not the next, are in the history. An
/// oversized count stands, as a negative number, before all others and breaks the run.
pub open spec fn is_run(
    events: Events,
    conversation: Seq<char>,
    device: Seq<char>,
    count: u64,
) -> bool {
    if has_oversized(events, conversation, device) {
        count == 0
    } else {
        &&& count <= MAX_STORED
        &&& forall|counter: u64|
            1 <= counter <= count ==> #[trigger] has_event(events, conversation, device, counter)
        &&& !has_event(events, conversation, device, (count + 1) as u64)
    }
}

/// How many events the device's unbroken run consists of.
pub open spec fn run(events: Events, conversation: Seq<char>, device: Seq<char>) -> u64 {
    choose|count: u64| is_run(events, conversation, device, count)
}

/// There is one unbroken run.
pub proof fn lemma_run(events: Events, conversation: Seq<char>, device: Seq<char>, count: u64)
    requires
        is_run(events, conversation, device, count),
    ensures
        run(events, conversation, device) == count,
{
    let chosen = run(events, conversation, device);
    assert(is_run(events, conversation, device, chosen));
    if chosen < count {
        assert(has_event(events, conversation, device, (chosen + 1) as u64));
    } else if count < chosen {
        assert(has_event(events, conversation, device, (count + 1) as u64));
    }
}

fn find_oversized(events: &EventTable, conversation: &str, device: &str) -> (found: bool)
    requires
        events.wf(),
        forall|key: (Seq<char>, u64)| #[trigger]
            events@.contains_key(key) ==> events@[key].device_id == key.0 && events@[key].counter
                == key.1,
    ensures
        found == has_oversized(events@, conversation@, device@),
{
    let total: usize = events.len();
    let ghost keys = events.keys();
    let mut i: usize = 0;
    while i < total
        invariant
            events.wf(),
            keys == events.keys(),
            i <= total,
            total == keys.len(),
            lists_keys::<(String, u64), EventRow>(keys, events@),
            forall|key: (Seq<char>, u64)| #[trigger]
                events@.contains_key(key) ==> events@[key].device_id == key.0
                    && events@[key].counter == key.1,
            forall|j: int|
                0 <= j < i ==> !((#[trigger] keys[j]).0 == device@ && keys[j].1 > MAX_STORED
                    && events@[keys[j]].conversation_id == conversation@),
        decreases total - i,
    {
        let event = events.value_at(i);
        if event.counter > MAX_STORED && same_text(event.device_id.as_str(), device) && same_text(
            event.conversation_id.as_str(),
            conversation,
        ) {
            assert(has_event(events@, conversation@, device@, event.counter));
            return true;
        }
        i += 1;
    }
    proof {
        assert forall|counter: u64| counter > MAX_STORED implies !(#[trigger] has_event(
            events@,
            conversation@,
            device@,
            counter,
        )) by {
            if has_event(events@, conversation@, device@, counter) {
                assert(keys.contains((device@, counter)));
                let j = choose|j: int| 0 <= j < keys.len() && keys[j] == (device@, counter);
                assert(keys[j].0 == device@);
            }
        }
    }
    false
}

/// Counts the events of a device's unbroken run.
pub fn count_run(events: &EventTable, conversation: &str, device: &str) -> (count: u64)
    requires
        events.wf(),
        forall|key: (Seq<char>, u64)| #[trigger]
            events@.contains_key(key) ==> events@[key].device_id == key.0 && events@[key].counter
                == key.1,
    ensures
        count == run(events@, conversation@, device@),
        is_run(events@, conversation@, device@, count),
{
    if find_oversized(events, conversation, device) {
        proof {
            lemma_run(events@, conversation@, device@, 0);
        }
        return 0;
    }
    let mut count: u64 = 0;
    let mut next: (String, u64) = (copy_text(device), 1);
    loop
        invariant
            events.wf(),
            !has_oversized(events@, conversation@, device@),
            count <= MAX_STORED,
            next@ == (device@, (count + 1) as u64),
            forall|counter: u64|
                1 <= counter <= count ==> #[trigger] has_event(
                    events@,
                    conversation@,
                    device@,
                    counter,
                ),
        decreases MAX_STORED - count,
    {
        let follows = match events.get(&next) {
            Some(event) => same_text(event.conversation_id.as_str(), conversation),
            None => false,
        };
        assert(follows == has_event(events@, conversation@, device@, (count + 1) as u64));
        if !follows {
            proof {
                lemma_run(events@, conversation@, device@, count);
            }
            return count;
        }
        count += 1;
        next = (copy_text(device), count + 1);
    }
}

} // verus!
