use ciphermesh::crdt::{
    event_record, materialize_conversation, ConversationEvent, ReactionAddId,
};
use ciphermesh::storage::{EventRecord, Storage, VersionVector};


const CONVERSATION: &str = "conversation";

#[test]
fn materialization_is_order_independent() {
    let events = vec![
        created(1),
        reaction_added("BobDevice", 1, "thumb", "+1", "bob"),
        reaction_added("AliceDevice", 2, "heart", "<3", "alice"),
    ];
    let reversed = events.iter().cloned().rev().collect::<Vec<_>>();

    assert_eq!(
        materialize_conversation(&events),
        materialize_conversation(&reversed)
    );
}

#[test]
fn duplicate_events_are_idempotent() {
    let created = created(1);
    let add = reaction_added("BobDevice", 1, "thumb", "+1", "bob");
    let once = vec![created.clone(), add.clone()];
    let duplicated = vec![created, add.clone(), add];

    assert_eq!(
        materialize_conversation(&once),
        materialize_conversation(&duplicated)
    );
}

#[test]
fn concurrent_reactions_converge_after_sync() {
    let mut alice = Storage::open_in_memory();
    let mut bob = Storage::open_in_memory();
    let created = created(1);
    let alice_reaction = reaction_added("AliceDevice", 2, "thumb", "+1", "alice");
    let bob_reaction = reaction_added("BobDevice", 1, "heart", "<3", "bob");

    alice.append_event(&created);
    alice.append_event(&alice_reaction);
    bob.append_event(&created);
    bob.append_event(&bob_reaction);

    sync_both(&mut alice, &mut bob);
    assert_eq!(
        materialize_conversation(&all_events(&alice)),
        materialize_conversation(&all_events(&bob))
    );
    assert_eq!(
        materialize_conversation(&all_events(&alice))
            .messages
            .get(&"message-1".to_string())
            .unwrap()
            .reactions
            .len(),
        2
    );
}

#[test]
fn reaction_removal_converges() {
    let add = reaction_added("BobDevice", 1, "thumb", "+1", "bob");
    let remove = event_record(
        CONVERSATION,
        "AliceDevice",
        2,
        ConversationEvent::ReactionRemoved {
            reaction_add: ReactionAddId {
                device_id: "BobDevice".to_string(),
                counter: 1,
            },
        },
    );

    let first = vec![created(1), add.clone(), remove.clone()];
    let second = vec![remove, created(1), add];

    assert_eq!(
        materialize_conversation(&first),
        materialize_conversation(&second)
    );
    assert!(materialize_conversation(&first)
        .messages
        .get(&"message-1".to_string())
        .unwrap()
        .reactions
        .is_empty());
}

#[test]
fn delete_tombstone_converges() {
    let create = created(1);
    let delete = event_record(
        CONVERSATION,
        "BobDevice",
        1,
        ConversationEvent::MessageDeleted {
            message_id: "message-1".to_string(),
        },
    );

    let first = vec![create.clone(), delete.clone()];
    let second = vec![delete, create];

    assert_eq!(
        materialize_conversation(&first),
        materialize_conversation(&second)
    );
    assert!(
        materialize_conversation(&first)
            .messages
            .get(&"message-1".to_string())
            .unwrap()
            .deleted
    );
}

#[test]
fn read_state_merges_monotonically() {
    let read_five = event_record(
        CONVERSATION,
        "AliceDevice",
        1,
        ConversationEvent::ReadAdvanced {
            actor_id: "alice".to_string(),
            read_device_id: "BobDevice".to_string(),
            read_counter: 5,
        },
    );
    let read_seven = event_record(
        CONVERSATION,
        "AliceDevice",
        2,
        ConversationEvent::ReadAdvanced {
            actor_id: "alice".to_string(),
            read_device_id: "BobDevice".to_string(),
            read_counter: 7,
        },
    );
    let read_three = event_record(
        CONVERSATION,
        "AliceDevice",
        3,
        ConversationEvent::ReadAdvanced {
            actor_id: "alice".to_string(),
            read_device_id: "BobDevice".to_string(),
            read_counter: 3,
        },
    );

    let state = materialize_conversation(&[read_seven, read_three, read_five]);

    assert_eq!(
        state.read_frontiers.get(&("alice".to_string(), "BobDevice".to_string())),
        Some(&7)
    );
}

#[test]
fn replicas_converge_after_phase_4d_sync() {
    let mut alice = Storage::open_in_memory();
    let mut bob = Storage::open_in_memory();
    let shared_create = created(1);
    let alice_reaction = reaction_added("AliceDevice", 2, "thumb", "+1", "alice");
    let bob_delete = event_record(
        CONVERSATION,
        "BobDevice",
        1,
        ConversationEvent::MessageDeleted {
            message_id: "message-1".to_string(),
        },
    );

    alice.append_event(&alice_reaction);
    alice.append_event(&shared_create);
    bob.append_event(&bob_delete);
    bob.append_event(&shared_create);

    sync_both(&mut alice, &mut bob);

    assert_eq!(
        materialize_conversation(&all_events(&alice)),
        materialize_conversation(&all_events(&bob))
    );
}

fn created(counter: u64) -> EventRecord {
    event_record(
        CONVERSATION,
        "AliceDevice",
        counter,
        ConversationEvent::MessageCreated {
            message_id: "message-1".to_string(),
            author_id: "alice".to_string(),
            payload: b"hello".to_vec(),
        },
    )
}

fn reaction_added(
    device_id: &str,
    counter: u64,
    _label: &str,
    reaction: &str,
    actor_id: &str,
) -> EventRecord {
    event_record(
        CONVERSATION,
        device_id,
        counter,
        ConversationEvent::ReactionAdded {
            message_id: "message-1".to_string(),
            reaction: reaction.to_string(),
            actor_id: actor_id.to_string(),
        },
    )
}

fn all_events(storage: &Storage) -> Vec<EventRecord> {
    let empty = VersionVector::new();
    storage.missing_events_for(CONVERSATION, &empty)
}

fn sync_both(alice: &mut Storage, bob: &mut Storage) {
    let alice_vector = alice.version_vector(CONVERSATION);
    let bob_vector = bob.version_vector(CONVERSATION);
    let bob_to_alice = bob.missing_events_for(CONVERSATION, &alice_vector);
    let alice_to_bob = alice.missing_events_for(CONVERSATION, &bob_vector);

    alice.append_events(&bob_to_alice);
    bob.append_events(&alice_to_bob);
}
