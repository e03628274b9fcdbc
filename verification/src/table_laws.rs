//! What the tables of a client keep: what was stored is found again, in the right order,
//! and nothing else changes.

use crate::history::{has_event, is_run};
use crate::records::{
    CertificateRow, ContactRow, DeviceRow, EventRow, InviteRow, MessageRow, MessageStatus,
    OutboxRow, OutboxStatus, RevocationRow,
};
use crate::sorted::{is_selection, text_before, OrderedKey};
use crate::storage::{
    certificate_place, contact_place, is_last_message, message_place, missing_place, outbox_place,
    revocation_place, seen_by, ContactOrder, EventOrder, MessageOrder, OutboxOrder, StorageView,
};
use crate::text::lower;
use vstd::prelude::*;

verus! {

/// A list of rows that a table was searched for holds none of them twice.
proof fn lemma_selection_has_no_twins<K, W, S: OrderedKey>(
    rows: Seq<W>,
    table: Map<K, W>,
    rank: spec_fn(W) -> Option<S::V>,
    i: int,
    j: int,
)
    requires
        is_selection::<K, W, S>(rows, table, rank),
        0 <= i < j < rows.len(),
    ensures
        rows[i] != rows[j],
{
    let place = rank(rows[i])->0;
    S::order_laws(place, place, place);
}

/// The history of a conversation holds every message of that conversation once, and no
/// other message.
pub proof fn law_history_is_complete(
    storage: StorageView,
    conversation: Seq<char>,
    messages: Seq<MessageRow>,
)
    requires
        is_selection::<Seq<char>, MessageRow, MessageOrder>(
            messages,
            storage.messages,
            message_place(conversation),
        ),
    ensures
        forall|i: int|
            0 <= i < messages.len() ==> (#[trigger] messages[i]).conversation_id == conversation
                && storage.messages.contains_value(messages[i]),
        forall|id: Seq<char>|
            #![trigger storage.messages[id]]
            storage.messages.contains_key(id) && storage.messages[id].conversation_id
                == conversation ==> messages.contains(storage.messages[id]),
        forall|i: int, j: int| 0 <= i < j < messages.len() ==> messages[i] != messages[j],
{
    assert forall|i: int, j: int| 0 <= i < j < messages.len() implies messages[i] != messages[j] by {
        lemma_selection_has_no_twins::<Seq<char>, MessageRow, MessageOrder>(
            messages,
            storage.messages,
            message_place(conversation),
            i,
            j,
        );
    }
    assert forall|id: Seq<char>|
        #![trigger storage.messages[id]]
        storage.messages.contains_key(id) && storage.messages[id].conversation_id
            == conversation implies messages.contains(storage.messages[id]) by {
        assert(message_place(conversation)(storage.messages[id]) is Some);
    }
}

/// A history is in the order of time. Of messages of one time, those without a number come
/// first, the others by their number; the id decides last.
pub proof fn law_history_is_in_order(
    storage: StorageView,
    conversation: Seq<char>,
    messages: Seq<MessageRow>,
    i: int,
    j: int,
)
    requires
        is_selection::<Seq<char>, MessageRow, MessageOrder>(
            messages,
            storage.messages,
            message_place(conversation),
        ),
        0 <= i < j < messages.len(),
        messages[i].created_at_unix_secs <= 0x7fff_ffff_ffff_ffff,
        messages[j].created_at_unix_secs <= 0x7fff_ffff_ffff_ffff,
    ensures
        messages[i].created_at_unix_secs <= messages[j].created_at_unix_secs,
        messages[i].created_at_unix_secs == messages[j].created_at_unix_secs ==> match (
            messages[i].protocol_counter,
            messages[j].protocol_counter,
        ) {
            (None, Some(_)) => true,
            (Some(_), None) => false,
            (None, None) => text_before(messages[i].message_id, messages[j].message_id),
            (Some(a), Some(b)) => a <= 0x7fff_ffff_ffff_ffff && b <= 0x7fff_ffff_ffff_ffff ==> a < b
                || (a == b && text_before(messages[i].message_id, messages[j].message_id)),
        },
{
    let place = message_place(conversation);
    assert(MessageOrder::before(place(messages[i])->0, place(messages[j])->0));
}

/// The last message of a conversation belongs to it, and none of its messages is later.
pub proof fn law_last_message_is_latest(
    storage: StorageView,
    conversation: Seq<char>,
    last: MessageRow,
    id: Seq<char>,
)
    requires
        is_last_message(Some(last), storage.messages, conversation),
        storage.messages.contains_key(id),
        storage.messages[id].conversation_id == conversation,
        last.created_at_unix_secs <= 0x7fff_ffff_ffff_ffff,
        storage.messages[id].created_at_unix_secs <= 0x7fff_ffff_ffff_ffff,
    ensures
        storage.messages.contains_value(last),
        last.conversation_id == conversation,
        storage.messages[id].created_at_unix_secs <= last.created_at_unix_secs,
{
    let place = message_place(conversation);
    assert(place(storage.messages[id]) is Some);
}

/// A conversation has no last message exactly if it has no message.
pub proof fn law_no_last_message_means_no_message(
    storage: StorageView,
    conversation: Seq<char>,
    last: Option<MessageRow>,
)
    requires
        is_last_message(last, storage.messages, conversation),
    ensures
        last is None <==> (forall|id: Seq<char>|
            #![trigger storage.messages[id]]
            storage.messages.contains_key(id) ==> storage.messages[id].conversation_id
                != conversation),
{
    let place = message_place(conversation);
    if last is Some {
        let id = choose|id: Seq<char>| #[trigger]
            storage.messages.contains_key(id) && storage.messages[id] == last->0;
        assert(storage.messages[id].conversation_id == conversation);
    } else {
        assert forall|id: Seq<char>|
            #![trigger storage.messages[id]]
            storage.messages.contains_key(id) implies storage.messages[id].conversation_id
            != conversation by {
            assert(place(storage.messages[id]) is None);
        }
    }
}

/// What waits in the outbox comes oldest first, of items of one time by their id.
pub proof fn law_outbox_items_come_oldest_first(
    storage: StorageView,
    status: OutboxStatus,
    items: Seq<OutboxRow>,
    i: int,
    j: int,
)
    requires
        is_selection::<Seq<char>, OutboxRow, OutboxOrder>(
            items,
            storage.outbox,
            outbox_place(status),
        ),
        0 <= i < j < items.len(),
        items[i].created_at_unix_secs <= 0x7fff_ffff_ffff_ffff,
        items[j].created_at_unix_secs <= 0x7fff_ffff_ffff_ffff,
    ensures
        items[i].created_at_unix_secs <= items[j].created_at_unix_secs,
        items[i].created_at_unix_secs == items[j].created_at_unix_secs ==> text_before(
            items[i].message_id,
            items[j].message_id,
        ),
{
    let place = outbox_place(status);
    assert(OutboxOrder::before(place(items[i])->0, place(items[j])->0));
}

/// Every item of the outbox with a status is listed under it once, and no other item is.
pub proof fn law_outbox_items_are_complete(
    storage: StorageView,
    status: OutboxStatus,
    items: Seq<OutboxRow>,
)
    requires
        is_selection::<Seq<char>, OutboxRow, OutboxOrder>(
            items,
            storage.outbox,
            outbox_place(status),
        ),
    ensures
        forall|i: int|
            0 <= i < items.len() ==> (#[trigger] items[i]).status == status
                && storage.outbox.contains_value(items[i]),
        forall|id: Seq<char>|
            #![trigger storage.outbox[id]]
            storage.outbox.contains_key(id) && storage.outbox[id].status == status
                ==> items.contains(storage.outbox[id]),
        forall|i: int, j: int| 0 <= i < j < items.len() ==> items[i] != items[j],
{
    assert forall|i: int, j: int| 0 <= i < j < items.len() implies items[i] != items[j] by {
        lemma_selection_has_no_twins::<Seq<char>, OutboxRow, OutboxOrder>(
            items,
            storage.outbox,
            outbox_place(status),
            i,
            j,
        );
    }
    assert forall|id: Seq<char>|
        #![trigger storage.outbox[id]]
        storage.outbox.contains_key(id) && storage.outbox[id].status
            == status implies items.contains(storage.outbox[id]) by {
        assert(outbox_place(status)(storage.outbox[id]) is Some);
    }
}

/// Contacts come in the order in which they were saved, the latest first; of one time, in
/// the order of their names without regard to case.
pub proof fn law_contacts_come_latest_first(
    storage: StorageView,
    contacts: Seq<ContactRow>,
    i: int,
    j: int,
)
    requires
        is_selection::<Seq<char>, ContactRow, ContactOrder>(
            contacts,
            storage.contacts,
            contact_place(),
        ),
        0 <= i < j < contacts.len(),
        contacts[i].saved_at_unix_secs <= 0x7fff_ffff_ffff_ffff,
        contacts[j].saved_at_unix_secs <= 0x7fff_ffff_ffff_ffff,
    ensures
        contacts[i].saved_at_unix_secs >= contacts[j].saved_at_unix_secs,
        contacts[i].saved_at_unix_secs == contacts[j].saved_at_unix_secs ==> text_before(
            lower(contacts[i].display_name),
            lower(contacts[j].display_name),
        ) || (lower(contacts[i].display_name) == lower(contacts[j].display_name) && text_before(
            contacts[i].contact_id,
            contacts[j].contact_id,
        )),
        contacts[i] != contacts[j],
{
    let place = contact_place();
    assert(ContactOrder::before(place(contacts[i])->0, place(contacts[j])->0));
    lemma_selection_has_no_twins::<Seq<char>, ContactRow, ContactOrder>(
        contacts,
        storage.contacts,
        place,
        i,
        j,
    );
}

/// Every contact is listed, and nothing but contacts.
pub proof fn law_contacts_are_complete(storage: StorageView, contacts: Seq<ContactRow>)
    requires
        is_selection::<Seq<char>, ContactRow, ContactOrder>(
            contacts,
            storage.contacts,
            contact_place(),
        ),
    ensures
        forall|id: Seq<char>|
            #![trigger storage.contacts[id]]
            storage.contacts.contains_key(id) ==> contacts.contains(storage.contacts[id]),
        forall|i: int|
            0 <= i < contacts.len() ==> storage.contacts.contains_value(#[trigger] contacts[i]),
{
    assert forall|id: Seq<char>|
        #![trigger storage.contacts[id]]
        storage.contacts.contains_key(id) implies contacts.contains(storage.contacts[id]) by {
        assert(contact_place()(storage.contacts[id]) is Some);
    }
}

/// The events that a peer lacks come device by device, those of a device by their count.
pub proof fn law_missing_events_come_in_order(
    storage: StorageView,
    conversation: Seq<char>,
    vector: Map<Seq<char>, u64>,
    events: Seq<EventRow>,
    i: int,
    j: int,
)
    requires
        is_selection::<(Seq<char>, u64), EventRow, EventOrder>(
            events,
            storage.events,
            missing_place(conversation, vector),
        ),
        0 <= i < j < events.len(),
        events[i].counter <= 0x7fff_ffff_ffff_ffff,
        events[j].counter <= 0x7fff_ffff_ffff_ffff,
    ensures
        text_before(events[i].device_id, events[j].device_id) || (events[i].device_id
            == events[j].device_id && events[i].counter < events[j].counter),
        events[i].conversation_id == conversation,
        events[j].conversation_id == conversation,
{
    let place = missing_place(conversation, vector);
    assert(place(events[i]) is Some && place(events[j]) is Some);
    assert(EventOrder::before(place(events[i])->0, place(events[j])->0));
}

/// The certificates of an account are all listed, and only those.
pub proof fn law_certificates_are_those_of_the_account(
    storage: StorageView,
    account: Seq<char>,
    rows: Seq<CertificateRow>,
)
    requires
        is_selection::<(Seq<char>, Seq<char>), CertificateRow, String>(
            rows,
            storage.certificates,
            certificate_place(account),
        ),
    ensures
        forall|i: int| 0 <= i < rows.len() ==> (#[trigger] rows[i]).account_id == account,
        forall|key: (Seq<char>, Seq<char>)|
            #![trigger storage.certificates[key]]
            storage.certificates.contains_key(key) && storage.certificates[key].account_id
                == account ==> rows.contains(storage.certificates[key]),
{
    assert forall|key: (Seq<char>, Seq<char>)|
        #![trigger storage.certificates[key]]
        storage.certificates.contains_key(key) && storage.certificates[key].account_id
            == account implies rows.contains(storage.certificates[key]) by {
        assert(certificate_place(account)(storage.certificates[key]) is Some);
    }
}

/// The revocations of an account are all listed, and only those.
pub proof fn law_revocations_are_those_of_the_account(
    storage: StorageView,
    account: Seq<char>,
    rows: Seq<RevocationRow>,
)
    requires
        is_selection::<(Seq<char>, Seq<char>), RevocationRow, String>(
            rows,
            storage.revocations,
            revocation_place(account),
        ),
    ensures
        forall|i: int| 0 <= i < rows.len() ==> (#[trigger] rows[i]).account_id == account,
        forall|key: (Seq<char>, Seq<char>)|
            #![trigger storage.revocations[key]]
            storage.revocations.contains_key(key) && storage.revocations[key].account_id
                == account ==> rows.contains(storage.revocations[key]),
{
    assert forall|key: (Seq<char>, Seq<char>)|
        #![trigger storage.revocations[key]]
        storage.revocations.contains_key(key) && storage.revocations[key].account_id
            == account implies rows.contains(storage.revocations[key]) by {
        assert(revocation_place(account)(storage.revocations[key]) is Some);
    }
}

/// A new storage holds nothing.
pub proof fn law_new_storage_is_empty()
    ensures
        ({
            let nothing = StorageView::nothing();
            &&& nothing.local_identity.dom() == Set::<Seq<char>>::empty()
            &&& nothing.messages.dom() == Set::<Seq<char>>::empty()
            &&& nothing.outbox.dom() == Set::<Seq<char>>::empty()
            &&& nothing.accepted.dom() == Set::<Seq<char>>::empty()
            &&& nothing.events.dom() == Set::<(Seq<char>, u64)>::empty()
            &&& nothing.contacts.dom() == Set::<Seq<char>>::empty()
            &&& nothing.invites.dom() == Set::<Seq<char>>::empty()
            &&& nothing.certificates.dom() == Set::<(Seq<char>, Seq<char>)>::empty()
            &&& nothing.revocations.dom() == Set::<(Seq<char>, Seq<char>)>::empty()
        }),
{
    let nothing = StorageView::nothing();
    assert(nothing.local_identity.dom() =~= Set::<Seq<char>>::empty());
    assert(nothing.messages.dom() =~= Set::<Seq<char>>::empty());
    assert(nothing.outbox.dom() =~= Set::<Seq<char>>::empty());
    assert(nothing.accepted.dom() =~= Set::<Seq<char>>::empty());
    assert(nothing.events.dom() =~= Set::<(Seq<char>, u64)>::empty());
    assert(nothing.contacts.dom() =~= Set::<Seq<char>>::empty());
    assert(nothing.invites.dom() =~= Set::<Seq<char>>::empty());
    assert(nothing.certificates.dom() =~= Set::<(Seq<char>, Seq<char>)>::empty());
    assert(nothing.revocations.dom() =~= Set::<(Seq<char>, Seq<char>)>::empty());
}

/// A stored party is found under its own name; the other parties and tables stay.
pub proof fn law_identity_is_kept_under_its_name(
    storage: StorageView,
    id: Seq<char>,
    role: Seq<char>,
    state: Seq<u8>,
    now: u64,
    other: Seq<char>,
)
    ensures
        ({
            let after = storage.with_local_identity(id, role, state, now);
            &&& after == StorageView { local_identity: after.local_identity, ..storage }
            &&& after.local_identity.contains_key(id)
            &&& after.local_identity[id].state == state
            &&& after.local_identity[id].role == role
            &&& after.local_identity[id].updated_at_unix_secs == now
            &&& other != id ==> (after.local_identity.contains_key(other)
                <==> storage.local_identity.contains_key(other))
            &&& other != id && storage.local_identity.contains_key(other)
                ==> after.local_identity[other] == storage.local_identity[other]
        }),
{
}

/// The display name is the one that was saved last; nothing else changes.
pub proof fn law_display_name_is_kept(storage: StorageView, name: Seq<char>, now: u64, key: Seq<char>)
    ensures
        ({
            let after = storage.with_display_name(name, now);
            &&& after == StorageView { settings: after.settings, ..storage }
            &&& after.settings.contains_key("display_name"@)
            &&& after.settings["display_name"@].value == name
            &&& key != "display_name"@ ==> (after.settings.contains_key(key)
                <==> storage.settings.contains_key(key))
            &&& key != "display_name"@ && storage.settings.contains_key(key)
                ==> after.settings[key] == storage.settings[key]
        }),
{
}

/// A stored session is found under its conversation; the others and the other tables stay.
pub proof fn law_session_is_kept_under_its_conversation(
    storage: StorageView,
    conversation: Seq<char>,
    peer: Seq<char>,
    role: Seq<char>,
    state: Seq<u8>,
    now: u64,
    other: Seq<char>,
)
    ensures
        ({
            let after = storage.with_session(conversation, peer, role, state, now);
            &&& after == StorageView { sessions: after.sessions, ..storage }
            &&& after.sessions.contains_key(conversation)
            &&& after.sessions[conversation].state == state
            &&& after.sessions[conversation].peer_id == peer
            &&& after.sessions[conversation].role == role
            &&& other != conversation ==> (after.sessions.contains_key(other)
                <==> storage.sessions.contains_key(other))
            &&& other != conversation && storage.sessions.contains_key(other)
                ==> after.sessions[other] == storage.sessions[other]
        }),
{
}

/// The session of two devices is found under both; the others and the other tables stay.
pub proof fn law_pair_session_is_kept_under_its_devices(
    storage: StorageView,
    local: Seq<char>,
    remote: Seq<char>,
    state: Seq<u8>,
    now: u64,
    other: (Seq<char>, Seq<char>),
)
    ensures
        ({
            let after = storage.with_pair_session(local, remote, state, now);
            &&& after == StorageView { pair_sessions: after.pair_sessions, ..storage }
            &&& after.pair_sessions.contains_key((local, remote))
            &&& after.pair_sessions[(local, remote)].state == state
            &&& other != (local, remote) ==> (after.pair_sessions.contains_key(other)
                <==> storage.pair_sessions.contains_key(other))
            &&& other != (local, remote) && storage.pair_sessions.contains_key(other)
                ==> after.pair_sessions[other] == storage.pair_sessions[other]
        }),
{
}

/// A message with a new id enters the history as it is; no other message is touched, and no
/// other table.
pub proof fn law_message_enters_history(storage: StorageView, message: MessageRow, other: Seq<char>)
    ensures
        ({
            let after = storage.with_message(message);
            &&& after == StorageView { messages: after.messages, ..storage }
            &&& after.messages.contains_key(message.message_id)
            &&& !storage.messages.contains_key(message.message_id)
                ==> after.messages[message.message_id] == message
            &&& storage.messages.contains_key(other) ==> after.messages.contains_key(other)
                && after.messages[other] == storage.messages[other]
            &&& after.messages.contains_key(other) ==> storage.messages.contains_key(other)
                || other == message.message_id
        }),
{
}

/// A new status changes the status of that message alone.
pub proof fn law_status_concerns_one_message(
    storage: StorageView,
    id: Seq<char>,
    status: MessageStatus,
    other: Seq<char>,
)
    ensures
        ({
            let after = storage.with_message_status(id, status);
            &&& after == StorageView { messages: after.messages, ..storage }
            &&& after.messages.contains_key(other) <==> storage.messages.contains_key(other)
            &&& storage.messages.contains_key(other) ==> after.messages[other] == MessageRow {
                status: if other == id {
                    status
                } else {
                    storage.messages[other].status
                },
                ..storage.messages[other]
            }
        }),
{
}

/// Clearing a history leaves every other table as it is.
pub proof fn law_clearing_concerns_messages_only(storage: StorageView, conversation: Seq<char>)
    ensures
        ({
            let after = storage.without_history(conversation);
            after == StorageView { messages: after.messages, ..storage }
        }),
{
}

/// A new item enters the outbox as it is. One that is known keeps its attempts and its place
/// in the order. No other item is touched.
pub proof fn law_item_enters_outbox(storage: StorageView, item: OutboxRow, other: Seq<char>)
    ensures
        ({
            let id = item.message_id;
            let after = storage.with_outbox_item(item);
            &&& after == StorageView { outbox: after.outbox, ..storage }
            &&& after.outbox.contains_key(id)
            &&& after.outbox[id].payload == item.payload
            &&& after.outbox[id].recipient_id == item.recipient_id
            &&& after.outbox[id].status == item.status
            &&& !storage.outbox.contains_key(id) ==> after.outbox[id] == item
            &&& storage.outbox.contains_key(id) ==> after.outbox[id].retry_count
                == storage.outbox[id].retry_count && after.outbox[id].created_at_unix_secs
                == storage.outbox[id].created_at_unix_secs
                && after.outbox[id].last_attempt_unix_secs
                == storage.outbox[id].last_attempt_unix_secs
            &&& other != id ==> (after.outbox.contains_key(other) <==> storage.outbox.contains_key(
                other,
            ))
            &&& other != id && storage.outbox.contains_key(other) ==> after.outbox[other]
                == storage.outbox[other]
        }),
{
}

/// An attempt counts for its own item: one more, at its time; what is sent, to whom and
/// whether it waits stays, and no other item is touched.
pub proof fn law_attempt_concerns_one_item(
    storage: StorageView,
    id: Seq<char>,
    now: u64,
    other: Seq<char>,
)
    requires
        storage.outbox.contains_key(id) ==> storage.outbox[id].retry_count < u64::MAX,
    ensures
        ({
            let after = storage.with_outbox_attempt(id, now);
            &&& after == StorageView { outbox: after.outbox, ..storage }
            &&& after.outbox.contains_key(other) <==> storage.outbox.contains_key(other)
            &&& other != id && storage.outbox.contains_key(other) ==> after.outbox[other]
                == storage.outbox[other]
            &&& storage.outbox.contains_key(id) ==> after.outbox[id] == OutboxRow {
                retry_count: (storage.outbox[id].retry_count + 1) as u64,
                last_attempt_unix_secs: Some(now),
                ..storage.outbox[id]
            }
        }),
{
}

/// A confirmation ends the wait of its own item; what was sent stays on record, and no other
/// item is touched.
pub proof fn law_confirmation_concerns_one_item(
    storage: StorageView,
    id: Seq<char>,
    now: u64,
    other: Seq<char>,
)
    ensures
        ({
            let after = storage.with_outbox_delivered(id, now);
            &&& after == StorageView { outbox: after.outbox, ..storage }
            &&& after.outbox.contains_key(other) <==> storage.outbox.contains_key(other)
            &&& other != id && storage.outbox.contains_key(other) ==> after.outbox[other]
                == storage.outbox[other]
            &&& storage.outbox.contains_key(id) ==> after.outbox[id].status
                == OutboxStatus::Delivered && after.outbox[id].payload
                == storage.outbox[id].payload && after.outbox[id].retry_count
                == storage.outbox[id].retry_count && after.outbox[id].recipient_id
                == storage.outbox[id].recipient_id && after.outbox[id].message_id
                == storage.outbox[id].message_id && after.outbox[id].created_at_unix_secs
                == storage.outbox[id].created_at_unix_secs
        }),
{
}

/// To accept one message says nothing of another, and changes nothing else.
pub proof fn law_acceptance_concerns_one_message(
    storage: StorageView,
    id: Seq<char>,
    now: u64,
    other: Seq<char>,
)
    ensures
        ({
            let after = storage.with_accepted(id, now);
            &&& after == StorageView { accepted: after.accepted, ..storage }
            &&& after.accepted.contains_key(other) <==> storage.accepted.contains_key(other)
                || other == id
            &&& storage.accepted.contains_key(other) ==> after.accepted[other]
                == storage.accepted[other]
            &&& !storage.accepted.contains_key(id) ==> after.accepted[id] == now
        }),
{
}

/// A stored account is found under its id; the others and the other tables stay.
pub proof fn law_account_is_kept_under_its_id(
    storage: StorageView,
    account: Seq<char>,
    public_key: Seq<u8>,
    secret_key: Option<Seq<u8>>,
    now: u64,
    other: Seq<char>,
)
    ensures
        ({
            let after = storage.with_account(account, public_key, secret_key, now);
            &&& after == StorageView { accounts: after.accounts, ..storage }
            &&& after.accounts.contains_key(account)
            &&& after.accounts[account].account_public_key == public_key
            &&& after.accounts[account].account_secret_key == secret_key
            &&& other != account ==> (after.accounts.contains_key(other)
                <==> storage.accounts.contains_key(other))
            &&& other != account && storage.accounts.contains_key(other)
                ==> after.accounts[other] == storage.accounts[other]
        }),
{
}

/// A stored device is found under its id; the others and the other tables stay.
pub proof fn law_device_is_kept_under_its_id(
    storage: StorageView,
    id: Seq<char>,
    device: DeviceRow,
    other: Seq<char>,
)
    ensures
        ({
            let after = storage.with_device(id, device);
            &&& after == StorageView { devices: after.devices, ..storage }
            &&& after.devices.contains_key(id)
            &&& after.devices[id] == device
            &&& other != id ==> (after.devices.contains_key(other)
                <==> storage.devices.contains_key(other))
            &&& other != id && storage.devices.contains_key(other) ==> after.devices[other]
                == storage.devices[other]
        }),
{
}

/// A stored certificate is found under its account and device; the others and the other
/// tables stay.
pub proof fn law_certificate_is_kept_under_its_device(
    storage: StorageView,
    account: Seq<char>,
    device: Seq<char>,
    certificate: Seq<u8>,
    now: u64,
    other: (Seq<char>, Seq<char>),
)
    ensures
        ({
            let key = (account, device);
            let after = storage.with_certificate(account, device, certificate, now);
            &&& after == StorageView { certificates: after.certificates, ..storage }
            &&& after.certificates.contains_key(key)
            &&& after.certificates[key].certificate == certificate
            &&& after.certificates[key].account_id == account
            &&& after.certificates[key].device_id == device
            &&& other != key ==> (after.certificates.contains_key(other)
                <==> storage.certificates.contains_key(other))
            &&& other != key && storage.certificates.contains_key(other)
                ==> after.certificates[other] == storage.certificates[other]
        }),
{
}

/// A stored revocation concerns its own device: it is on record from then on, in the form of
/// the greatest counter, and no other device's revocation is touched.
pub proof fn law_revocation_concerns_one_device(
    storage: StorageView,
    account: Seq<char>,
    device: Seq<char>,
    counter: u64,
    revocation: Seq<u8>,
    now: u64,
    other: (Seq<char>, Seq<char>),
)
    requires
        counter <= 0x7fff_ffff_ffff_ffff,
        storage.revocations.contains_key((account, device)) ==> storage.revocations[(
            account,
            device,
        )].revocation_counter <= 0x7fff_ffff_ffff_ffff,
    ensures
        ({
            let key = (account, device);
            let after = storage.with_revocation(account, device, counter, revocation, now);
            &&& after == StorageView { revocations: after.revocations, ..storage }
            &&& after.revocations.contains_key(key)
            &&& !storage.revocations.contains_key(key)
                || storage.revocations[key].revocation_counter <= counter ==> {
                &&& after.revocations[key].revocation == revocation
                &&& after.revocations[key].revocation_counter == counter
                &&& after.revocations[key].account_id == account
                &&& after.revocations[key].device_id == device
            }
            &&& storage.revocations.contains_key(key) && storage.revocations[key].revocation_counter
                > counter ==> after.revocations[key].revocation
                == storage.revocations[key].revocation
                && after.revocations[key].revocation_counter
                == storage.revocations[key].revocation_counter
            &&& other != key ==> (after.revocations.contains_key(other)
                <==> storage.revocations.contains_key(other))
            &&& other != key && storage.revocations.contains_key(other)
                ==> after.revocations[other] == storage.revocations[other]
        }),
{
}

/// A new event enters the history of events as it is. No other event is touched, and of the
/// version vectors only the entry of its conversation and device.
pub proof fn law_event_enters_history(
    storage: StorageView,
    event: EventRow,
    other: (Seq<char>, u64),
    entry: (Seq<char>, Seq<char>),
)
    ensures
        ({
            let key = (event.device_id, event.counter);
            let after = storage.with_event(event);
            &&& after == StorageView { events: after.events, vectors: after.vectors, ..storage }
            &&& after.events.contains_key(key)
            &&& !storage.events.contains_key(key) ==> after.events[key] == event
            &&& storage.events.contains_key(other) ==> after.events.contains_key(other)
                && after.events[other] == storage.events[other]
            &&& after.events.contains_key(other) ==> storage.events.contains_key(other) || other
                == key
            &&& entry != (event.conversation_id, event.device_id) ==> (after.vectors.contains_key(
                entry,
            ) <==> storage.vectors.contains_key(entry))
            &&& entry != (event.conversation_id, event.device_id)
                && storage.vectors.contains_key(entry) ==> after.vectors[entry]
                == storage.vectors[entry]
            &&& after.vectors.contains_key((event.conversation_id, event.device_id))
        }),
{
}

/// A version vector counts, for each device, the events from the first one on without a gap:
/// all of them are there, and the next one is not.
pub proof fn law_vector_counts_unbroken_run(
    storage: StorageView,
    conversation: Seq<char>,
    device: Seq<char>,
    counter: u64,
)
    requires
        storage.is_consistent(),
        storage.vector(conversation).contains_key(device),
        forall|n: u64|
            n > 0x7fff_ffff_ffff_ffff ==> !(#[trigger] has_event(
                storage.events,
                conversation,
                device,
                n,
            )),
    ensures
        ({
            let count = seen_by(storage.vector(conversation), device);
            &&& 1 <= counter <= count ==> storage.events.contains_key((device, counter))
                && storage.events[(device, counter)].conversation_id == conversation
            &&& counter == count + 1 ==> !(storage.events.contains_key((device, counter))
                && storage.events[(device, counter)].conversation_id == conversation)
        }),
{
    let key = (conversation, device);
    assert(storage.vectors.contains_key(key));
    assert(is_run(storage.events, key.0, key.1, storage.vectors[key]));
    assert(has_event(storage.events, conversation, device, counter) <==> (
    storage.events.contains_key((device, counter)) && storage.events[(device, counter)].conversation_id
        == conversation));
}

/// Every device with an event in a conversation has an entry in its version vector.
pub proof fn law_vector_has_every_device(storage: StorageView, key: (Seq<char>, u64))
    requires
        storage.is_consistent(),
        storage.events.contains_key(key),
    ensures
        storage.vector(storage.events[key].conversation_id).contains_key(key.0),
{
    assert(storage.vectors.contains_key((storage.events[key].conversation_id, key.0)));
}

/// A contact is found under its id as it was saved; the others and the other tables stay.
pub proof fn law_contact_is_kept_under_its_id(
    storage: StorageView,
    contact: ContactRow,
    other: Seq<char>,
)
    ensures
        ({
            let after = storage.with_contact(contact);
            &&& after == StorageView { contacts: after.contacts, ..storage }
            &&& after.contacts.contains_key(contact.contact_id)
            &&& after.contacts[contact.contact_id] == contact
            &&& other != contact.contact_id ==> (after.contacts.contains_key(other)
                <==> storage.contacts.contains_key(other))
            &&& other != contact.contact_id && storage.contacts.contains_key(other)
                ==> after.contacts[other] == storage.contacts[other]
        }),
{
}

/// A saved invite is open until its time comes, under its own code; the others and the other
/// tables stay.
pub proof fn law_saved_invite_is_open(
    storage: StorageView,
    invite: InviteRow,
    now: u64,
    other: Seq<char>,
)
    requires
        invite.consumed_at_unix_secs is None,
        invite.expires_at_unix_secs <= 0x7fff_ffff_ffff_ffff,
        now <= 0x7fff_ffff_ffff_ffff,
    ensures
        ({
            let after = storage.with_invite(invite);
            &&& after == StorageView { invites: after.invites, ..storage }
            &&& after.has_open_invite(invite.code_hash, now) <==> now < invite.expires_at_unix_secs
            &&& after.invites[invite.code_hash] == invite
            &&& other != invite.code_hash ==> (after.invites.contains_key(other)
                <==> storage.invites.contains_key(other))
            &&& other != invite.code_hash && storage.invites.contains_key(other)
                ==> after.invites[other] == storage.invites[other]
        }),
{
}

/// Using an invite concerns that invite alone: it counts as used at its time, with its
/// payload as it was, and every other invite stays as open as it was.
pub proof fn law_use_concerns_one_invite(
    storage: StorageView,
    code: Seq<char>,
    now: u64,
    other: Seq<char>,
    later: u64,
)
    requires
        storage.is_consistent(),
        storage.has_open_invite(code, now),
    ensures
        ({
            let after = storage.with_invite_consumed(code, now);
            &&& after == StorageView { invites: after.invites, ..storage }
            &&& after.invites.contains_key(code)
            &&& after.invites[code].rendezvous_payload == storage.invites[code].rendezvous_payload
            &&& after.invites[code].consumed_at_unix_secs == Some(now)
            &&& other != code ==> (after.invites.contains_key(other)
                <==> storage.invites.contains_key(other))
            &&& other != code && storage.invites.contains_key(other) ==> after.invites[other]
                == storage.invites[other]
            &&& other != code ==> (after.has_open_invite(other, later)
                <==> storage.has_open_invite(other, later))
        }),
{
    assert(storage.invites[code].code_hash == code);
}

/// Events of a device are numbered from one on, each device for itself.
pub proof fn law_event_numbers_start_at_one(storage: StorageView, device: Seq<char>)
    ensures
        !storage.counters.contains_key(device) ==> storage.next_counter(device) == 1,
        storage.counters.contains_key(device) ==> storage.next_counter(device)
            == storage.counters[device],
{
}

/// The version vector of a conversation is made of that conversation's entries.
pub proof fn law_vector_is_of_its_conversation(
    storage: StorageView,
    conversation: Seq<char>,
    device: Seq<char>,
)
    ensures
        storage.vector(conversation).contains_key(device) <==> storage.vectors.contains_key(
            (conversation, device),
        ),
        storage.vectors.contains_key((conversation, device)) ==> storage.vector(
            conversation,
        )[device] == storage.vectors[(conversation, device)],
        seen_by(storage.vector(conversation), device) == if storage.vectors.contains_key(
            (conversation, device),
        ) {
            storage.vectors[(conversation, device)]
        } else {
            0
        },
{
}

/// As many events count as new as the history has more than before.
pub proof fn law_new_events_are_counted(storage: StorageView, events: Seq<EventRow>)
    requires
        storage.events.dom().finite(),
    ensures
        storage.with_events(events).events.dom().finite(),
        storage.with_events(events).events.dom().len() == storage.events.dom().len()
            + storage.new_events(events),
    decreases events.len(),
{
    if events.len() > 0 {
        let rest = events.drop_last();
        let last = events.last();
        law_new_events_are_counted(storage, rest);
        let before = storage.with_events(rest);
        let after = storage.with_events(events);
        let key = (last.device_id, last.counter);
        if !before.events.contains_key(key) {
            assert(after.events.dom() =~= before.events.dom().insert(key));
        }
    }
}

} // verus!
