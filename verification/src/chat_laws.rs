//! What holds of chats and queues over several messages: each operation concerns its own
//! message, and what is sent, read or left waiting is found again as such.

use crate::bytes::hex;
use crate::chat::{contact_of_identity, contact_of_name, shown_name};
use crate::conversation::{
    frame_is_taken, FlushView, FrameError, FrameStep, NamesView, StepView,
};
use crate::delivery::{
    delivery_id, was_handed_over, with_device_delivery, with_processed, with_queued, DeliveryError,
};
use crate::demo::{read_row, sent_row, with_kept};
use crate::device::DeviceSessionView;
use crate::error::CryptoError;
use crate::frames::{ChatFrame, ChatInitialView, DurableAppEnvelope, DurableView, FrameView};
use crate::handshake::{
    initial_conversation, is_frame_for, sent_on, with_sent_frames, LEGACY_CONTACT_KEY,
};
use crate::identity::BundleView;
use crate::invite::code_hash;
use crate::mailbox_node::{mailbox_row, was_deposited, with_mailbox_message, OfflineView};
use crate::party::{AliceView, BobView};
use crate::primitives::sha256;
use crate::profile::{
    incoming_entry, is_summaries, outgoing_entry, page_of, pending_place, ChatParty, EntryView,
    KnownPeerRow, PendingOrder, PendingRow, ProfileView,
};
use crate::records::{
    ContactRow, MessageDirection, MessageRow, MessageStatus, OutboxStatus,
};
use crate::rendezvous::fresh_invite;
use crate::session::{is_sent, MessageView, SessionView};
use crate::sorted::{is_selection, option_view, text_before, OrderedKey};
use crate::states::DeliveryView;
use crate::storage::{is_last_message, ChatSummary, StorageView};
use crate::table_laws::{
    law_contacts_come_latest_first, law_last_message_is_latest,
    law_no_last_message_means_no_message,
};
use crate::wire::decoding;
use vstd::prelude::*;
use vstd::utf8::is_ascii_chars_encode_utf8;

verus! {

/// What waits for a peer comes oldest first, of one time by its id.
pub proof fn law_waiting_messages_come_oldest_first(
    profile: ProfileView,
    peer: Seq<char>,
    messages: Seq<PendingRow>,
    i: int,
    j: int,
)
    requires
        is_selection::<Seq<char>, PendingRow, PendingOrder>(
            messages,
            profile.pending,
            pending_place(peer),
        ),
        0 <= i < j < messages.len(),
        messages[i].created_at_unix_secs <= 0x7fff_ffff_ffff_ffff,
        messages[j].created_at_unix_secs <= 0x7fff_ffff_ffff_ffff,
    ensures
        messages[i].created_at_unix_secs <= messages[j].created_at_unix_secs,
        messages[i].created_at_unix_secs == messages[j].created_at_unix_secs ==> text_before(
            messages[i].message_id,
            messages[j].message_id,
        ),
        messages[i] != messages[j],
{
    let place = pending_place(peer);
    assert(PendingOrder::before(place(messages[i])->0, place(messages[j])->0));
    let at = place(messages[i])->0;
    PendingOrder::order_laws(at, at, at);
}

/// All messages that wait for a peer are listed for that peer, and no others.
pub proof fn law_waiting_messages_are_complete(
    profile: ProfileView,
    peer: Seq<char>,
    messages: Seq<PendingRow>,
)
    requires
        is_selection::<Seq<char>, PendingRow, PendingOrder>(
            messages,
            profile.pending,
            pending_place(peer),
        ),
    ensures
        forall|i: int|
            0 <= i < messages.len() ==> (#[trigger] messages[i]).peer_id == peer
                && profile.pending.contains_value(messages[i]),
        forall|id: Seq<char>|
            #![trigger profile.pending[id]]
            profile.pending.contains_key(id) && profile.pending[id].peer_id == peer
                ==> messages.contains(profile.pending[id]),
{
    assert forall|id: Seq<char>|
        #![trigger profile.pending[id]]
        profile.pending.contains_key(id) && profile.pending[id].peer_id
            == peer implies messages.contains(profile.pending[id]) by {
        assert(pending_place(peer)(profile.pending[id]) is Some);
    }
}

/// A message that is queued waits as it is; one that waits already stays what it is, and so
/// does all else.
pub proof fn law_queueing_concerns_one_message(
    profile: ProfileView,
    message: PendingRow,
    other: Seq<char>,
)
    ensures
        ({
            let after = profile.with_pending(message);
            &&& after == ProfileView { pending: after.pending, ..profile }
            &&& !profile.pending.contains_key(message.message_id)
                ==> after.pending[message.message_id] == message
            &&& profile.pending.contains_key(other) ==> after.pending.contains_key(other)
                && after.pending[other] == profile.pending[other]
            &&& after.pending.contains_key(other) ==> profile.pending.contains_key(other) || other
                == message.message_id
        }),
{
}

/// An attempt counts for its own message: once more, and at its time.
pub proof fn law_waiting_attempt_concerns_one_message(
    profile: ProfileView,
    id: Seq<char>,
    now: u64,
    other: Seq<char>,
)
    ensures
        ({
            let after = profile.with_attempt(id, now);
            &&& after == ProfileView { pending: after.pending, ..profile }
            &&& after.pending.contains_key(other) <==> profile.pending.contains_key(other)
            &&& other != id && profile.pending.contains_key(other) ==> after.pending[other]
                == profile.pending[other]
            &&& profile.pending.contains_key(id) ==> after.pending[id] == PendingRow {
                retry_count: after.pending[id].retry_count,
                last_attempt_unix_secs: Some(now),
                ..profile.pending[id]
            }
            &&& profile.pending.contains_key(id) && profile.pending[id].retry_count < u64::MAX
                ==> after.pending[id].retry_count == profile.pending[id].retry_count + 1
        }),
{
}

/// A confirmed message no longer waits and counts as sent; every other message that waits,
/// and every other message of the history, stays what it is.
pub proof fn law_delivery_concerns_one_message(
    profile: ProfileView,
    id: Seq<char>,
    other: Seq<char>,
)
    ensures
        ({
            let after = profile.with_delivery(id);
            &&& after.known_peers == profile.known_peers
            &&& after.storage == StorageView { messages: after.storage.messages, ..profile.storage }
            &&& !after.pending.contains_key(id)
            &&& other != id ==> (after.pending.contains_key(other) <==> profile.pending.contains_key(
                other,
            ))
            &&& other != id && profile.pending.contains_key(other) ==> after.pending[other]
                == profile.pending[other]
            &&& after.storage.messages.contains_key(other)
                <==> profile.storage.messages.contains_key(other)
            &&& other != id && profile.storage.messages.contains_key(other)
                ==> after.storage.messages[other] == profile.storage.messages[other]
            &&& profile.storage.messages.contains_key(id) ==> after.storage.messages[id]
                == MessageRow { status: MessageStatus::Sent, ..profile.storage.messages[id] }
        }),
{
}

/// A message that is taken out of the queue is the only one that is.
pub proof fn law_removal_concerns_one_message(
    profile: ProfileView,
    id: Seq<char>,
    other: Seq<char>,
)
    ensures
        ({
            let after = profile.without_pending(id);
            &&& after == ProfileView { pending: after.pending, ..profile }
            &&& !after.pending.contains_key(id)
            &&& other != id ==> (after.pending.contains_key(other) <==> profile.pending.contains_key(
                other,
            ))
            &&& other != id && profile.pending.contains_key(other) ==> after.pending[other]
                == profile.pending[other]
        }),
{
}

/// A known peer is found by its conversation as it was saved; the others stay.
pub proof fn law_known_peer_is_found(profile: ProfileView, peer: KnownPeerRow, other: Seq<char>)
    ensures
        ({
            let after = profile.with_known_peer(peer);
            &&& after == ProfileView { known_peers: after.known_peers, ..profile }
            &&& after.peer_of(peer.conversation_id) == Some(peer)
            &&& after.pending_peer(peer.conversation_id) == peer.peer_id
            &&& other != peer.conversation_id ==> after.peer_of(other) == profile.peer_of(other)
                && after.pending_peer(other) == profile.pending_peer(other)
        }),
{
}

/// A message to a peer that is away is kept for that peer with its text, and in the history
/// of its conversation; nothing that was there is lost or changed.
pub proof fn law_offline_message_waits_for_its_peer(
    profile: ProfileView,
    peer: KnownPeerRow,
    id: Seq<char>,
    text: Seq<char>,
    now: u64,
    other: Seq<char>,
)
    ensures
        ({
            let after = profile.with_offline_message(peer, id, text, now);
            &&& after.known_peers == profile.known_peers
            &&& after.storage == StorageView { messages: after.storage.messages, ..profile.storage }
            &&& !profile.pending.contains_key(id) ==> {
                let waiting = after.pending[id];
                &&& after.pending.contains_key(id)
                &&& waiting.message_id == id
                &&& waiting.peer_id == peer.peer_id
                &&& waiting.conversation_id == peer.conversation_id
                &&& waiting.plaintext == text
                &&& waiting.created_at_unix_secs == now
                &&& waiting.retry_count == 0
                &&& waiting.last_attempt_unix_secs is None
            }
            &&& !profile.storage.messages.contains_key(id) ==> {
                let shown = after.storage.messages[id];
                &&& after.storage.messages.contains_key(id)
                &&& shown.conversation_id == peer.conversation_id
                &&& shown.plaintext == Some(text)
                &&& shown.direction == MessageDirection::Sent
                &&& shown.recipient_id == peer.display_name
                &&& shown.created_at_unix_secs == now
            }
            &&& profile.pending.contains_key(other) ==> after.pending.contains_key(other)
                && after.pending[other] == profile.pending[other]
            &&& profile.storage.messages.contains_key(other)
                ==> after.storage.messages.contains_key(other) && after.storage.messages[other]
                == profile.storage.messages[other]
        }),
{
}

/// The contact of a chat is saved under its id with its key and name, and can be written to
/// while away if it has an identity key; the other contacts and known peers stay.
pub proof fn law_chat_contact_is_saved(
    profile: ProfileView,
    id: Seq<char>,
    name: Seq<char>,
    identity: Seq<u8>,
    hint: Seq<char>,
    now: u64,
    other: Seq<char>,
)
    ensures
        ({
            let after = profile.with_chat_contact(id, name, identity, hint, now);
            &&& after.pending == profile.pending
            &&& after.storage == StorageView { contacts: after.storage.contacts, ..profile.storage }
            &&& after.storage.contacts.contains_key(id)
            &&& after.storage.contacts[id] == (ContactRow {
                contact_id: id,
                display_name: shown_name(name),
                identity_public_key: identity,
                discovery_hint: hint,
                saved_at_unix_secs: now,
            })
            &&& identity.len() == 32 ==> {
                &&& after.known_peers.contains_key(id)
                &&& after.known_peers[id].peer_id == contact_of_identity(identity)
                &&& after.known_peers[id].identity_public_key == identity
                &&& after.known_peers[id].display_name == shown_name(name)
                &&& after.known_peers[id].conversation_id == id
                &&& after.known_peers[id].last_seen_at_unix_secs == now
            }
            &&& identity.len() != 32 ==> after.known_peers == profile.known_peers
            &&& other != id ==> (after.storage.contacts.contains_key(other)
                <==> profile.storage.contacts.contains_key(other))
            &&& other != id && profile.storage.contacts.contains_key(other)
                ==> after.storage.contacts[other] == profile.storage.contacts[other]
            &&& other != id ==> (after.known_peers.contains_key(other)
                <==> profile.known_peers.contains_key(other))
            &&& other != id && profile.known_peers.contains_key(other) ==> after.known_peers[other]
                == profile.known_peers[other]
        }),
{
}

/// A contact that was saved with an identity key can be written to while away, even where no
/// peer is on record for it.
pub proof fn law_contact_with_key_can_be_written_to(profile: ProfileView, id: Seq<char>)
    requires
        !profile.known_peers.contains_key(id),
    ensures
        profile.peer_of(id) is Some <==> profile.storage.contacts.contains_key(id)
            && profile.storage.contacts[id].identity_public_key.len() == 32,
        profile.peer_of(id) matches Some(peer) ==> {
            let contact = profile.storage.contacts[id];
            &&& peer.peer_id == contact_of_identity(contact.identity_public_key)
            &&& peer.identity_public_key == contact.identity_public_key
            &&& peer.display_name == contact.display_name
            &&& peer.conversation_id == contact.contact_id
        },
{
}

/// A history entry is kept with its text, its time and its direction, under its id.
pub proof fn law_entry_is_kept_as_it_is(entry: EntryView, now: u64)
    ensures
        ({
            let row = entry.row(now);
            &&& row.plaintext == Some(entry.plaintext)
            &&& row.ciphertext == entry.ciphertext
            &&& row.conversation_id == entry.conversation_id
            &&& row.direction == entry.direction
            &&& row.status == entry.status
            &&& row.protocol_counter == entry.protocol_counter
            &&& row.created_at_unix_secs == now
            &&& entry.message_id matches Some(id) ==> row.message_id == id
            &&& entry.direction == MessageDirection::Sent ==> row.sender_id == shown_name("you"@)
                && row.recipient_id == shown_name(entry.peer_display_name)
            &&& entry.direction == MessageDirection::Received ==> row.recipient_id == shown_name(
                "you"@,
            ) && row.sender_id == shown_name(entry.sender_display_name)
        }),
{
}

/// What a chat sends stands in the history as sent, what it receives as received, each with
/// its text and in its conversation.
pub proof fn law_chat_entries_tell_directions_apart(
    id: Seq<char>,
    conversation: Seq<char>,
    local: Seq<char>,
    remote: Seq<char>,
    number: u64,
    frame: Seq<u8>,
    text: Seq<char>,
)
    ensures
        ({
            let sent = outgoing_entry(id, conversation, local, remote, frame, text);
            &&& sent.id() == id
            &&& sent.conversation_id == conversation
            &&& sent.direction == MessageDirection::Sent
            &&& sent.status == MessageStatus::Sent
            &&& sent.plaintext == text
            &&& sent.ciphertext == frame
            &&& sent.peer_display_name == remote
        }),
        ({
            let read = incoming_entry(id, conversation, remote, local, number, frame, text);
            &&& read.id() == id
            &&& read.conversation_id == conversation
            &&& read.direction == MessageDirection::Received
            &&& read.status == MessageStatus::Received
            &&& read.protocol_counter == Some(number)
            &&& read.plaintext == text
            &&& read.ciphertext == frame
            &&& read.sender_display_name == remote
        }),
{
}

/// A received message enters the history, counts as accepted, and may be kept with the party
/// that read it: nothing else changes.
pub proof fn law_receiving_concerns_one_message(
    profile: ProfileView,
    kept: Option<(Seq<char>, Seq<u8>)>,
    entry: EntryView,
    now: u64,
    other: Seq<char>,
)
    ensures
        ({
            let id = entry.id();
            let after = profile.with_received(kept, entry, now);
            &&& after.pending == profile.pending
            &&& after.known_peers == profile.known_peers
            &&& after.storage == StorageView {
                messages: after.storage.messages,
                accepted: after.storage.accepted,
                local_identity: after.storage.local_identity,
                ..profile.storage
            }
            &&& !profile.storage.messages.contains_key(id) ==> after.storage.messages[id]
                == entry.row(now)
            &&& profile.storage.messages.contains_key(other)
                ==> after.storage.messages.contains_key(other) && after.storage.messages[other]
                == profile.storage.messages[other]
            &&& after.storage.messages.contains_key(other)
                ==> profile.storage.messages.contains_key(other) || other == id
            &&& after.storage.accepted.contains_key(other)
                <==> profile.storage.accepted.contains_key(other) || other == id
            &&& kept is None ==> after.storage.local_identity == profile.storage.local_identity
            &&& kept matches Some((slot, state)) ==> {
                &&& after.storage.local_identity.contains_key(slot)
                &&& after.storage.local_identity[slot].state == state
                &&& other != slot && profile.storage.local_identity.contains_key(other)
                    ==> after.storage.local_identity.contains_key(other)
                    && after.storage.local_identity[other]
                    == profile.storage.local_identity[other]
            }
        }),
{
}

/// A chat that is opened is with the contact of the sender's identity key. What was said in
/// the first message stands in its history; a message without a text opens the chat only.
pub proof fn law_opened_chat_holds_first_message(
    profile: ProfileView,
    kept: Option<Seq<u8>>,
    named: ChatInitialView,
    local: Seq<char>,
    hint: Seq<char>,
    payload: Seq<u8>,
    text: Seq<char>,
    now: u64,
    other: Seq<char>,
)
    requires
        named.sender_identity_public_key is Some,
    ensures
        ({
            let identity = named.sender_identity_public_key->0;
            let contact = contact_of_identity(identity);
            let after = profile.with_opened_chat(kept, named, local, hint, payload, text, now);
            &&& after.pending == profile.pending
            &&& initial_conversation(named) == contact
            &&& after.storage.contacts.contains_key(contact)
            &&& after.storage.contacts[contact].identity_public_key == identity
            &&& after.storage.contacts[contact].display_name == shown_name(
                named.sender_display_name,
            )
            &&& other != contact && profile.storage.contacts.contains_key(other)
                ==> after.storage.contacts.contains_key(other) && after.storage.contacts[other]
                == profile.storage.contacts[other]
            &&& profile.storage.messages.contains_key(other)
                ==> after.storage.messages.contains_key(other) && after.storage.messages[other]
                == profile.storage.messages[other]
            &&& text.len() == 0 ==> after.storage.messages == profile.storage.messages
            &&& text.len() > 0 ==> exists|id: Seq<char>| #[trigger]
                after.storage.messages.contains_key(id) && (profile.storage.messages.contains_key(
                    id,
                ) || {
                    &&& after.storage.messages[id].conversation_id == contact
                    &&& after.storage.messages[id].plaintext == Some(text)
                    &&& after.storage.messages[id].direction == MessageDirection::Received
                    &&& after.storage.messages[id].ciphertext == payload
                })
            &&& kept matches Some(state) ==> after.storage.local_identity.contains_key("bob"@)
                && after.storage.local_identity["bob"@].state == state
            &&& kept is None ==> after.storage.local_identity == profile.storage.local_identity
        }),
{
    let after = profile.with_opened_chat(kept, named, local, hint, payload, text, now);
    if text.len() > 0 {
        let entry = crate::handshake::initial_entry(named, local, payload, text);
        assert(after.storage.messages.contains_key(entry.id()));
    }
}

/// Of a list of messages that wait, each counts one attempt, and no other message does.
pub proof fn law_attempts_concern_listed_messages(
    profile: ProfileView,
    items: Seq<PendingRow>,
    now: u64,
    id: Seq<char>,
)
    requires
        forall|i: int, j: int|
            0 <= i < j < items.len() ==> (#[trigger] items[i]).message_id != (
            #[trigger] items[j]).message_id,
        profile.pending.contains_key(id),
        profile.pending[id].retry_count < u64::MAX,
    ensures
        ({
            let after = profile.with_attempts(items, now);
            &&& after == ProfileView { pending: after.pending, ..profile }
            &&& after.pending.contains_key(id)
            &&& (forall|i: int| 0 <= i < items.len() ==> (#[trigger] items[i]).message_id != id)
                ==> after.pending[id] == profile.pending[id]
            &&& (exists|i: int| 0 <= i < items.len() && (#[trigger] items[i]).message_id == id)
                ==> after.pending[id] == (PendingRow {
                retry_count: (profile.pending[id].retry_count + 1) as u64,
                last_attempt_unix_secs: Some(now),
                ..profile.pending[id]
            })
        }),
    decreases items.len(),
{
    if items.len() > 0 {
        let rest = items.drop_last();
        let at = items.len() - 1;
        assert forall|i: int, j: int| 0 <= i < j < rest.len() implies (#[trigger] rest[i]).message_id
            != (#[trigger] rest[j]).message_id by {
            assert(items[i].message_id != items[j].message_id);
        }
        law_attempts_concern_listed_messages(profile, rest, now, id);
        assert(items[at] == items.last());
        assert forall|i: int| 0 <= i < rest.len() implies rest[i] == items[i] by {}
        if items.last().message_id == id {
            assert forall|i: int| 0 <= i < rest.len() implies (#[trigger] rest[i]).message_id
                != id by {
                assert(items[i].message_id != items[at].message_id);
            }
        } else if exists|i: int| 0 <= i < items.len() && (#[trigger] items[i]).message_id == id {
            let i = choose|i: int|
                0 <= i < items.len() && (#[trigger] items[i]).message_id == id;
            assert(rest[i].message_id == id);
        }
    }
}

/// What is flushed to a peer stands in the history under its id, with its text and the frame
/// that was sent; what was there before stays.
pub proof fn law_flushed_messages_stand_in_history(
    storage: StorageView,
    items: Seq<PendingRow>,
    frames: Seq<Seq<u8>>,
    conversation: Seq<char>,
    local: Seq<char>,
    now: u64,
    i: int,
    other: Seq<char>,
)
    requires
        frames.len() <= items.len(),
        forall|a: int, b: int|
            0 <= a < b < items.len() ==> (#[trigger] items[a]).message_id != (
            #[trigger] items[b]).message_id,
    ensures
        ({
            let after = with_sent_frames(storage, items, frames, conversation, local, now);
            &&& after == StorageView { messages: after.messages, ..storage }
            &&& storage.messages.contains_key(other) ==> after.messages.contains_key(other)
                && after.messages[other] == storage.messages[other]
            &&& after.messages.contains_key(other) && !storage.messages.contains_key(other)
                ==> exists|k: int|
                0 <= k < frames.len() && (#[trigger] items[k]).message_id == other
            &&& 0 <= i < frames.len() ==> after.messages.contains_key(items[i].message_id)
            &&& 0 <= i < frames.len() && !storage.messages.contains_key(items[i].message_id) ==> {
                let row = after.messages[items[i].message_id];
                &&& row.plaintext == Some(items[i].plaintext)
                &&& row.ciphertext == frames[i]
                &&& row.conversation_id == conversation
                &&& row.direction == MessageDirection::Sent
                &&& row.status == MessageStatus::Sent
                &&& row.created_at_unix_secs == now
            }
        }),
    decreases frames.len(),
{
    if frames.len() > 0 {
        let rest = frames.drop_last();
        let at = frames.len() - 1;
        law_flushed_messages_stand_in_history(
            storage,
            items,
            rest,
            conversation,
            local,
            now,
            i,
            other,
        );
        law_flushed_messages_stand_in_history(
            storage,
            items,
            rest,
            conversation,
            local,
            now,
            i,
            items[at].message_id,
        );
        let before = with_sent_frames(storage, items, rest, conversation, local, now);
        if before.messages.contains_key(items[at].message_id) && !storage.messages.contains_key(
            items[at].message_id,
        ) {
            let k = choose|k: int|
                0 <= k < rest.len() && (#[trigger] items[k]).message_id == items[at].message_id;
            assert(items[k].message_id != items[at].message_id);
        }
        let after = with_sent_frames(storage, items, frames, conversation, local, now);
        if after.messages.contains_key(other) && !storage.messages.contains_key(other) {
            if before.messages.contains_key(other) {
                let k = choose|k: int|
                    0 <= k < rest.len() && (#[trigger] items[k]).message_id == other;
                assert(items[k].message_id == other);
            } else {
                assert(items[at].message_id == other);
            }
        }
        assert(frames[at] == frames.last());
        if 0 <= i < rest.len() {
            assert(rest[i] == frames[i]);
            assert(items[i].message_id != items[at].message_id);
        }
    }
}

/// A page of the chat list holds the chats from its offset on, as many as it may and as
/// there are, in their order.
pub proof fn law_page_holds_a_stretch<T>(all: Seq<T>, limit: int, offset: int, i: int)
    requires
        0 <= limit,
        0 <= offset,
    ensures
        page_of(all, limit, offset).len() == if offset >= all.len() {
            0
        } else if offset + limit <= all.len() {
            limit
        } else {
            all.len() - offset
        },
        0 <= i < page_of(all, limit, offset).len() ==> page_of(all, limit, offset)[i]
            == all[offset + i],
{
}

/// A page that follows another one goes on where that one ended: no chat is left out between
/// them and none is shown twice.
pub proof fn law_pages_follow_each_other<T>(all: Seq<T>, limit: int, offset: int)
    requires
        0 <= limit,
        0 <= offset,
    ensures
        page_of(all, limit, offset) + page_of(all, limit, offset + limit) == page_of(
            all,
            2 * limit,
            offset,
        ),
{
    assert(page_of(all, limit, offset) + page_of(all, limit, offset + limit) =~= page_of(
        all,
        2 * limit,
        offset,
    ));
}

/// A queued message is on record on the sender's side: in the history as not yet sent, and
/// in the outbox, where it waits with the payload that is to be sent. No other message and
/// no other item is touched.
pub proof fn law_queued_message_is_on_record(
    storage: StorageView,
    conversation: Seq<char>,
    state: Seq<u8>,
    session_state: Seq<u8>,
    id: Seq<char>,
    number: u64,
    payload: Seq<u8>,
    text: Seq<char>,
    now: u64,
    other: Seq<char>,
)
    ensures
        ({
            let after = with_queued(
                storage,
                conversation,
                state,
                session_state,
                id,
                number,
                payload,
                text,
                now,
            );
            &&& after == StorageView {
                local_identity: after.local_identity,
                sessions: after.sessions,
                messages: after.messages,
                outbox: after.outbox,
                ..storage
            }
            &&& after.local_identity.contains_key("alice"@)
            &&& after.local_identity["alice"@].state == state
            &&& after.sessions.contains_key(conversation)
            &&& after.sessions[conversation].state == session_state
            &&& after.outbox.contains_key(id)
            &&& after.outbox[id].payload == payload
            &&& after.outbox[id].recipient_id == "bob"@
            &&& after.outbox[id].status == OutboxStatus::Pending
            &&& !storage.outbox.contains_key(id) ==> after.outbox[id].retry_count == 0
                && after.outbox[id].created_at_unix_secs == now
                && after.outbox[id].last_attempt_unix_secs is None
            &&& after.messages.contains_key(id)
            &&& !storage.messages.contains_key(id) ==> {
                let shown = after.messages[id];
                &&& shown.plaintext == Some(text)
                &&& shown.conversation_id == conversation
                &&& shown.direction == MessageDirection::Sent
                &&& shown.status == MessageStatus::Stored
                &&& shown.protocol_counter == Some(number)
                &&& shown.ciphertext == payload
                &&& shown.created_at_unix_secs == now
            }
            &&& other != id && storage.outbox.contains_key(other) ==> after.outbox.contains_key(
                other,
            ) && after.outbox[other] == storage.outbox[other]
            &&& storage.messages.contains_key(other) ==> after.messages.contains_key(other)
                && after.messages[other] == storage.messages[other]
            &&& other != conversation && storage.sessions.contains_key(other)
                ==> after.sessions.contains_key(other) && after.sessions[other]
                == storage.sessions[other]
        }),
{
}

/// A delivered message is on record on the receiver's side: accepted, in the history with
/// its text, with the receiver as it is then. Nothing else changes.
pub proof fn law_processed_message_is_on_record(
    storage: StorageView,
    conversation: Seq<char>,
    state: Seq<u8>,
    session_state: Seq<u8>,
    delivery: DurableView,
    payload: Seq<u8>,
    text: Seq<char>,
    now: u64,
    other: Seq<char>,
)
    ensures
        ({
            let id = delivery.message_id;
            let shown_id = "bob-"@ + id;
            let after = with_processed(
                storage,
                conversation,
                state,
                session_state,
                delivery,
                payload,
                text,
                now,
            );
            &&& after == StorageView {
                accepted: after.accepted,
                local_identity: after.local_identity,
                sessions: after.sessions,
                messages: after.messages,
                ..storage
            }
            &&& after.accepted.contains_key(other) <==> storage.accepted.contains_key(other)
                || other == id
            &&& after.local_identity["bob"@].state == state
            &&& other != "bob"@ && storage.local_identity.contains_key(other)
                ==> after.local_identity.contains_key(other) && after.local_identity[other]
                == storage.local_identity[other]
            &&& after.sessions[conversation].state == session_state
            &&& after.messages.contains_key(shown_id)
            &&& !storage.messages.contains_key(shown_id) ==> {
                let shown = after.messages[shown_id];
                &&& shown.plaintext == Some(text)
                &&& shown.conversation_id == conversation
                &&& shown.direction == MessageDirection::Received
                &&& shown.status == MessageStatus::Received
                &&& shown.protocol_counter == Some(delivery.message.number)
                &&& shown.ciphertext == payload
                &&& shown.created_at_unix_secs == now
            }
            &&& storage.messages.contains_key(other) ==> after.messages.contains_key(other)
                && after.messages[other] == storage.messages[other]
        }),
{
}

/// A payload that comes again is confirmed and neither read nor kept again.
pub proof fn law_delivery_is_processed_once(
    before: StorageView,
    after: StorageView,
    bob: BobView,
    bob_after: BobView,
    conversation: Seq<char>,
    payload: Seq<u8>,
    now: u64,
    ack: Result<Seq<char>, DeliveryError>,
    again: StorageView,
    bob_again: BobView,
    later: u64,
    second: Result<Seq<char>, DeliveryError>,
)
    requires
        was_handed_over(before, after, bob, bob_after, conversation, payload, now, ack),
        ack is Ok,
        was_handed_over(after, again, bob_after, bob_again, conversation, payload, later, second),
    ensures
        again == after,
        bob_again == bob_after,
        second == ack,
        decoding::<DurableAppEnvelope>(payload) matches Some(delivery) && ack == Ok::<
            Seq<char>,
            DeliveryError,
        >(delivery.message_id) && after.accepted.contains_key(delivery.message_id),
{
}

/// What Bob cannot read is not confirmed.
pub proof fn law_unread_delivery_is_not_confirmed(
    before: StorageView,
    after: StorageView,
    bob: BobView,
    bob_after: BobView,
    conversation: Seq<char>,
    payload: Seq<u8>,
    now: u64,
    ack: Result<Seq<char>, DeliveryError>,
    delivery: DurableView,
    error: CryptoError,
)
    requires
        was_handed_over(before, after, bob, bob_after, conversation, payload, now, ack),
        decoding::<DurableAppEnvelope>(payload) == Some(delivery),
        !before.accepted.contains_key(delivery.message_id),
        bob.reading(delivery.message).1 == Err::<Seq<char>, CryptoError>(error),
    ensures
        ack == Err::<Seq<char>, DeliveryError>(DeliveryError::Crypto(error)),
        after.messages == before.messages,
        after.outbox == before.outbox,
        after.local_identity == before.local_identity,
{
}

/// A delivery to a device waits in the outbox under an id of its own, for that device and
/// with its payload, and the session is kept with it. No other item and no other session is
/// touched.
pub proof fn law_device_delivery_is_on_record(
    storage: StorageView,
    session: DeviceSessionView,
    state: Seq<u8>,
    envelope: DeliveryView,
    payload: Seq<u8>,
    now: u64,
    other: Seq<char>,
    pair: (Seq<char>, Seq<char>),
)
    ensures
        ({
            let id = delivery_id(envelope.logical_message_id, envelope.recipient_device_id);
            let own = (session.local_device_id, session.remote_device_id);
            let after = with_device_delivery(storage, session, state, envelope, payload, now);
            &&& after == StorageView {
                pair_sessions: after.pair_sessions,
                outbox: after.outbox,
                ..storage
            }
            &&& after.pair_sessions.contains_key(own)
            &&& after.pair_sessions[own].state == state
            &&& pair != own && storage.pair_sessions.contains_key(pair)
                ==> after.pair_sessions.contains_key(pair) && after.pair_sessions[pair]
                == storage.pair_sessions[pair]
            &&& after.outbox.contains_key(id)
            &&& after.outbox[id].payload == payload
            &&& after.outbox[id].recipient_id == envelope.recipient_device_id
            &&& after.outbox[id].status == OutboxStatus::Pending
            &&& !storage.outbox.contains_key(id) ==> after.outbox[id].retry_count == 0
                && after.outbox[id].created_at_unix_secs == now
            &&& other != id ==> (after.outbox.contains_key(other) <==> storage.outbox.contains_key(
                other,
            ))
            &&& other != id && storage.outbox.contains_key(other) ==> after.outbox[other]
                == storage.outbox[other]
        }),
{
}

/// Deliveries of one message to two devices have two ids.
pub proof fn law_devices_have_their_own_deliveries(
    message: Seq<char>,
    laptop: Seq<char>,
    phone: Seq<char>,
)
    requires
        laptop != phone,
    ensures
        delivery_id(message, laptop) != delivery_id(message, phone),
{
    reveal_strlit(":");
    let a = delivery_id(message, laptop);
    let b = delivery_id(message, phone);
    let at = message.len() as int + 1;
    assert(a.skip(at) =~= laptop);
    assert(b.skip(at) =~= phone);
}

/// A message that is handed to a mailbox is on record on the sender's side until its receipt
/// is confirmed: the mailbox gets the very payload that waits in the outbox.
pub proof fn law_mailbox_message_is_on_record(
    storage: StorageView,
    token: Seq<char>,
    state: Seq<u8>,
    session_state: Seq<u8>,
    id: Seq<char>,
    number: u64,
    payload: Seq<u8>,
    text: Seq<char>,
    now: u64,
    other: Seq<char>,
)
    ensures
        ({
            let after = with_mailbox_message(
                storage,
                token,
                state,
                session_state,
                id,
                number,
                payload,
                text,
                now,
            );
            &&& after == StorageView {
                local_identity: after.local_identity,
                sessions: after.sessions,
                messages: after.messages,
                outbox: after.outbox,
                ..storage
            }
            &&& after.outbox.contains_key(id)
            &&& after.outbox[id].payload == payload
            &&& after.outbox[id].recipient_id == token
            &&& after.outbox[id].status == OutboxStatus::Pending
            &&& after.messages.contains_key(id)
            &&& !storage.messages.contains_key(id) ==> {
                &&& after.messages[id].plaintext == Some(text)
                &&& after.messages[id].conversation_id == "mailbox-"@ + token
                &&& after.messages[id].direction == MessageDirection::Sent
                &&& after.messages[id].created_at_unix_secs == now
            }
            &&& other != id && storage.outbox.contains_key(other) ==> after.outbox.contains_key(
                other,
            ) && after.outbox[other] == storage.outbox[other]
            &&& storage.messages.contains_key(other) ==> after.messages.contains_key(other)
                && after.messages[other] == storage.messages[other]
        }),
{
}

/// A confirmation, and a frame that cannot be read, leave history and session as they are.
pub proof fn law_confirmation_frame_changes_nothing<P: ChatParty>(
    before: ProfileView,
    after: ProfileView,
    party: P,
    party_after: P,
    names: NamesView,
    bytes: Seq<u8>,
    keep: bool,
    now: u64,
    step: Result<FrameStep, FrameError>,
    id: Seq<char>,
)
    requires
        frame_is_taken(before, after, party, party_after, names, bytes, keep, now, step),
        decoding::<ChatFrame>(bytes) is None || decoding::<ChatFrame>(bytes) == Some(
            FrameView::Ack { message_id: id },
        ),
    ensures
        after == before,
        party_after == party,
        decoding::<ChatFrame>(bytes) is None ==> step is Err,
        decoding::<ChatFrame>(bytes) is Some ==> (step matches Ok(step) && step@ == (
        StepView::Acknowledged { message_id: id })),
{
}

/// A message that the history has already is told to be confirmed again, with no text, and
/// changes nothing.
pub proof fn law_known_frame_is_only_confirmed<P: ChatParty>(
    before: ProfileView,
    after: ProfileView,
    party: P,
    party_after: P,
    names: NamesView,
    bytes: Seq<u8>,
    keep: bool,
    now: u64,
    step: Result<FrameStep, FrameError>,
    id: Seq<char>,
    sender: Seq<char>,
    message: MessageView,
)
    requires
        frame_is_taken(before, after, party, party_after, names, bytes, keep, now, step),
        decoding::<ChatFrame>(bytes) == Some(
            FrameView::Message { message_id: id, sender_display_name: sender, message },
        ),
        before.storage.messages.contains_key(id),
    ensures
        after == before,
        party_after == party,
        step matches Ok(step) && step@ == (StepView::Message {
            message_id: id,
            sender_display_name: sender,
            plaintext: None,
        }),
{
}

/// A new message that is read is shown with its text and stands in the history of the chat
/// as received, under its id; no other message is touched.
pub proof fn law_read_frame_enters_history<P: ChatParty>(
    before: ProfileView,
    after: ProfileView,
    party: P,
    party_after: P,
    names: NamesView,
    bytes: Seq<u8>,
    keep: bool,
    now: u64,
    step: Result<FrameStep, FrameError>,
    id: Seq<char>,
    sender: Seq<char>,
    message: MessageView,
    session: SessionView,
    text: Seq<char>,
    other: Seq<char>,
)
    requires
        frame_is_taken(before, after, party, party_after, names, bytes, keep, now, step),
        decoding::<ChatFrame>(bytes) == Some(
            FrameView::Message { message_id: id, sender_display_name: sender, message },
        ),
        !before.storage.messages.contains_key(id),
        party.session() == Some(session),
        session.receiving(message).1 == Ok::<Seq<char>, CryptoError>(text),
    ensures
        step matches Ok(step) && step@ == (StepView::Message {
            message_id: id,
            sender_display_name: sender,
            plaintext: Some(text),
        }),
        party_after.session() == Some(session.receiving(message).0),
        party_after.keys() == party.keys(),
        after.pending == before.pending,
        after.known_peers == before.known_peers,
        after.storage.messages.contains_key(id),
        after.storage.messages[id].plaintext == Some(text),
        after.storage.messages[id].conversation_id == names.conversation,
        after.storage.messages[id].direction == MessageDirection::Received,
        after.storage.messages[id].status == MessageStatus::Received,
        after.storage.messages[id].created_at_unix_secs == now,
        after.storage.messages[id].sender_id == shown_name(sender),
        before.storage.messages.contains_key(other) ==> after.storage.messages.contains_key(other)
            && after.storage.messages[other] == before.storage.messages[other],
        !keep ==> after.storage.local_identity == before.storage.local_identity,
{
}

/// What a session refuses is told as an error and does not enter the history.
pub proof fn law_refused_frame_stays_out_of_history<P: ChatParty>(
    before: ProfileView,
    after: ProfileView,
    party: P,
    party_after: P,
    names: NamesView,
    bytes: Seq<u8>,
    keep: bool,
    now: u64,
    step: Result<FrameStep, FrameError>,
    id: Seq<char>,
    sender: Seq<char>,
    message: MessageView,
    session: SessionView,
    error: CryptoError,
)
    requires
        frame_is_taken(before, after, party, party_after, names, bytes, keep, now, step),
        decoding::<ChatFrame>(bytes) == Some(
            FrameView::Message { message_id: id, sender_display_name: sender, message },
        ),
        !before.storage.messages.contains_key(id),
        party.session() == Some(session),
        session.receiving(message).1 == Err::<Seq<char>, CryptoError>(error),
    ensures
        step matches Err(refused) && refused == FrameError::Crypto(error),
        after == before,
{
}

/// A session that has sent some messages counts that many more, and nothing else of it but
/// its sending chain has moved.
pub proof fn law_sent_messages_are_counted(session: SessionView, count: nat)
    requires
        session.send_count + count <= u64::MAX,
    ensures
        sent_on(session, count).send_count == session.send_count + count,
        sent_on(session, count).recv_count == session.recv_count,
        sent_on(session, count).recv_chain_key == session.recv_chain_key,
        sent_on(session, count).skipped == session.skipped,
        sent_on(session, count).consumed == session.consumed,
        sent_on(session, count).root_key == session.root_key,
        sent_on(session, count).peer == session.peer,
        sent_on(session, count).dh_private == session.dh_private,
    decreases count,
{
    if count > 0 {
        law_sent_messages_are_counted(session, (count - 1) as nat);
    }
}

/// What came through a mailbox stands in the history of the mailbox's conversation as
/// received, with its text and under its id.
pub proof fn law_mailbox_row_holds_message(
    envelope: OfflineView,
    token: Seq<char>,
    number: u64,
    text: Seq<char>,
    now: u64,
)
    ensures
        ({
            let row = mailbox_row(envelope, token, number, text, now);
            &&& row.message_id == envelope.message_id
            &&& row.conversation_id == "mailbox-"@ + token
            &&& row.direction == MessageDirection::Received
            &&& row.status == MessageStatus::Received
            &&& row.plaintext == Some(text)
            &&& row.protocol_counter == Some(number)
            &&& row.ciphertext == envelope.encrypted_payload
            &&& row.created_at_unix_secs == now
        }),
{
}

/// An invite that was left is open for five minutes, under the digest of its code and with
/// its payload.
pub proof fn law_fresh_invite_lives_five_minutes(
    storage: StorageView,
    code: Seq<char>,
    payload: Seq<char>,
    now: u64,
    later: u64,
)
    requires
        now + 300 <= 0x7fff_ffff_ffff_ffff,
        later <= 0x7fff_ffff_ffff_ffff,
    ensures
        ({
            let left = storage.with_invite(fresh_invite(code, payload, now));
            &&& left.has_open_invite(code_hash(code), later) <==> later < now + 300
            &&& left.invites[code_hash(code)].rendezvous_payload == payload
            &&& left.invites[code_hash(code)].created_at_unix_secs == now
        }),
{
}

/// The chat list shows the chats in the order of their contacts, the latest first, each with
/// the last message of its own conversation.
pub proof fn law_chat_list_shows_latest_first(
    storage: StorageView,
    all: Seq<ChatSummary>,
    i: int,
    j: int,
    id: Seq<char>,
)
    requires
        is_summaries(storage, all),
        0 <= i < j < all.len(),
        all[i].contact@.saved_at_unix_secs <= 0x7fff_ffff_ffff_ffff,
        all[j].contact@.saved_at_unix_secs <= 0x7fff_ffff_ffff_ffff,
    ensures
        all[i].contact@.saved_at_unix_secs >= all[j].contact@.saved_at_unix_secs,
        all[i].contact@ != all[j].contact@,
        all[i].last_message matches Some(last) ==> last@.conversation_id
            == all[i].contact@.contact_id && storage.messages.contains_value(last@),
        all[i].last_message is None && storage.messages.contains_key(id)
            ==> storage.messages[id].conversation_id != all[i].contact@.contact_id,
        all[i].last_message matches Some(last) ==> storage.messages.contains_key(id)
            && storage.messages[id].conversation_id == all[i].contact@.contact_id
            && last@.created_at_unix_secs <= 0x7fff_ffff_ffff_ffff
            && storage.messages[id].created_at_unix_secs <= 0x7fff_ffff_ffff_ffff
            ==> storage.messages[id].created_at_unix_secs <= last@.created_at_unix_secs,
{
    let contacts = all.map_values(|summary: ChatSummary| summary.contact@);
    assert(contacts[i] == all[i].contact@ && contacts[j] == all[j].contact@);
    law_contacts_come_latest_first(storage, contacts, i, j);
    let conversation = all[i].contact@.contact_id;
    let last = option_view(all[i].last_message);
    assert(is_last_message(last, storage.messages, conversation));
    law_no_last_message_means_no_message(storage, conversation, last);
    if last is Some && storage.messages.contains_key(id) && storage.messages[id].conversation_id
        == conversation && (last->0).created_at_unix_secs <= 0x7fff_ffff_ffff_ffff
        && storage.messages[id].created_at_unix_secs <= 0x7fff_ffff_ffff_ffff {
        law_last_message_is_latest(storage, conversation, last->0, id);
    }
}

/// What is flushed to a peer is read as the message that waited: under its id, in the name of
/// the user, and with its text under the session's next key.
pub proof fn law_flushed_frame_carries_its_message(
    frame: Seq<u8>,
    session: SessionView,
    item: PendingRow,
    name: Seq<char>,
)
    requires
        is_frame_for(frame, session, item, name),
    ensures
        exists|message: MessageView|
            {
                &&& #[trigger] is_sent(session, message, item.plaintext)
                &&& decoding::<ChatFrame>(frame) == Some(
                    FrameView::Message {
                        message_id: item.message_id,
                        sender_display_name: name,
                        message,
                    },
                )
            },
{
}

/// The confirmation that is waited for is that of the message written last.
pub proof fn law_last_written_message_is_awaited(flush: FlushView)
    requires
        flush.written <= flush.items.len(),
    ensures
        flush.written == 0 ==> flush.awaited() is None,
        flush.written > 0 ==> flush.awaited() == Some(flush.items[flush.written - 1].message_id),
{
}

/// What is handed to a mailbox is for the owner of the bundle, lives five minutes, and is the
/// payload that waits in the sender's outbox.
pub proof fn law_deposit_is_for_the_bundle_owner(
    before: StorageView,
    after: StorageView,
    bundle: BundleView,
    alice: AliceView,
    envelope: OfflineView,
    text: Seq<char>,
    now: u64,
)
    requires
        was_deposited(before, after, bundle, alice, envelope, text, now),
        now + 300 <= u64::MAX,
    ensures
        envelope.recipient_token == hex(sha256(bundle.identity_public_key).take(16)),
        envelope.expires_at_unix_secs == Some((now + 300) as u64),
        after.outbox.contains_key(envelope.message_id),
        after.outbox[envelope.message_id].payload == envelope.encrypted_payload,
        after.outbox[envelope.message_id].status == OutboxStatus::Pending,
        after.outbox[envelope.message_id].recipient_id == envelope.recipient_token,
        after.messages.contains_key(envelope.message_id),
{
}

/// A first message without an identity opens a chat with the contact of the sender's name,
/// which cannot be written to while away.
pub proof fn law_chat_without_identity_goes_by_name(
    profile: ProfileView,
    named: ChatInitialView,
    local: Seq<char>,
    hint: Seq<char>,
    payload: Seq<u8>,
    text: Seq<char>,
    now: u64,
)
    requires
        named.sender_identity_public_key is None,
    ensures
        ({
            let contact = contact_of_name(named.sender_display_name);
            let after = profile.with_opened_chat(None, named, local, hint, payload, text, now);
            &&& initial_conversation(named) == contact
            &&& after.storage.contacts.contains_key(contact)
            &&& after.known_peers == profile.known_peers
        }),
{
    reveal_strlit("legacy display-name contact");
    is_ascii_chars_encode_utf8(LEGACY_CONTACT_KEY@);
}

/// What is said with both sides present is on record on both: with its text, its number and
/// its time, as sent on one side and as received on the other.
pub proof fn law_said_message_is_on_record(
    storage: StorageView,
    actor: Seq<char>,
    peer: Seq<char>,
    conversation: Seq<char>,
    state: Seq<u8>,
    session_state: Seq<u8>,
    message: MessageView,
    text: Seq<char>,
    now: u64,
    other: Seq<char>,
)
    ensures
        ({
            let sent = sent_row(message, conversation, text, now);
            &&& sent.plaintext == Some(text)
            &&& sent.direction == MessageDirection::Sent
            &&& sent.protocol_counter == Some(message.number)
            &&& sent.conversation_id == conversation
            &&& sent.created_at_unix_secs == now
        }),
        ({
            let read = read_row(message, conversation, text, now);
            &&& read.plaintext == Some(text)
            &&& read.direction == MessageDirection::Received
            &&& read.protocol_counter == Some(message.number)
            &&& read.conversation_id == conversation
            &&& read.created_at_unix_secs == now
        }),
        ({
            let row = sent_row(message, conversation, text, now);
            let after = with_kept(
                storage,
                actor,
                peer,
                conversation,
                state,
                session_state,
                row,
                now,
            );
            &&& after == StorageView {
                local_identity: after.local_identity,
                sessions: after.sessions,
                messages: after.messages,
                ..storage
            }
            &&& after.local_identity[actor].state == state
            &&& after.sessions[conversation].state == session_state
            &&& after.messages.contains_key(row.message_id)
            &&& other != actor && storage.local_identity.contains_key(other)
                ==> after.local_identity.contains_key(other) && after.local_identity[other]
                == storage.local_identity[other]
            &&& storage.messages.contains_key(other) ==> after.messages.contains_key(other)
                && after.messages[other] == storage.messages[other]
        }),
{
}

} // verus!
