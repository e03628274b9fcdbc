//! What holds of two sessions that talk to each other.

use crate::error::CryptoError;
use crate::primitives::x25519_public;
use crate::ratchet::{
    alice_chain, bob_chain, chain_after, message_key_at, next_chain_key, secrets_agree,
    MAX_SKIPPED_MESSAGE_KEYS,
};
use crate::session::{
    is_same_session, is_sealed, is_sent, keys_by_number, MessageView, RatchetRole,
    RatchetSessionState, SessionView,
};
use vstd::prelude::*;
use vstd::utf8::{encode_utf8_decode_utf8, encode_utf8_valid_utf8};

verus! {

/// Whether `sender` sends on the chain that starts at `chain`.
pub open spec fn leads(sender: SessionView, chain: Seq<u8>) -> bool {
    sender.send_chain_key == chain_after(chain, sender.send_count as nat)
}

/// Whether `receiver` receives on the chain that starts at `chain`: it stands at its own
/// count, holds the right keys of earlier messages that it passed over, and has
/// decrypted earlier messages only.
pub open spec fn follows(receiver: SessionView, chain: Seq<u8>) -> bool {
    &&& receiver.recv_chain_key == chain_after(chain, receiver.recv_count as nat)
    &&& receiver.skipped.dom().finite()
    &&& forall|n: u64| #[trigger]
        receiver.skipped.contains_key(n) ==> {
            &&& n < receiver.recv_count
            &&& receiver.skipped[n] == message_key_at(chain, n)
            &&& !receiver.consumed.contains(n)
        }
    &&& forall|n: u64| #[trigger] receiver.consumed.contains(n) ==> n < receiver.recv_count
}

/// Whether `receiver` can read what `sender` sends on the chain that starts at `chain`.
pub open spec fn linked(sender: SessionView, receiver: SessionView, chain: Seq<u8>) -> bool {
    &&& leads(sender, chain)
    &&& follows(receiver, chain)
    &&& receiver.peer == x25519_public(sender.dh_private)
}

/// Whether two sessions are the two sides of one conversation, up to the messages in
/// flight.
pub open spec fn paired(a: SessionView, b: SessionView) -> bool {
    &&& a.root_key == b.root_key
    &&& a.role != b.role
    &&& a.peer == x25519_public(b.dh_private)
    &&& b.peer == x25519_public(a.dh_private)
}

/// Whether `receiver` accepts message `number`: it has not decrypted it, and either kept
/// its key or has room for the keys of the messages before it.
pub open spec fn has_room_for(receiver: SessionView, number: u64) -> bool {
    &&& !receiver.consumed.contains(number)
    &&& receiver.skipped.contains_key(number) || (receiver.recv_count <= number && number
        - receiver.recv_count + receiver.skipped.len() <= MAX_SKIPPED_MESSAGE_KEYS)
}

proof fn lemma_skipping_within_room(session: SessionView, chain: Seq<u8>, number: u64)
    requires
        follows(session, chain),
        session.recv_count <= number,
        number - session.recv_count + session.skipped.len() <= MAX_SKIPPED_MESSAGE_KEYS,
    ensures
        session.skipping_to(number).1,
        session.skipping_to(number).0.recv_count == number,
        follows(session.skipping_to(number).0, chain),
        session.skipping_to(number).0.consumed == session.consumed,
        session.skipping_to(number).0.peer == session.peer,
        session.skipping_to(number).0.skipped.len() == session.skipped.len() + (number
            - session.recv_count),
    decreases number - session.recv_count,
{
    if session.recv_count < number {
        lemma_skipping_one(session, chain);
        lemma_skipping_within_room(session.skipping_one(), chain, number);
    }
}

proof fn lemma_skipping_one(session: SessionView, chain: Seq<u8>)
    requires
        follows(session, chain),
        session.recv_count < u64::MAX,
    ensures
        follows(session.skipping_one(), chain),
        session.skipping_one().skipped.len() == session.skipped.len() + 1,
{
    let next = session.skipping_one();
    assert(chain_after(chain, next.recv_count as nat) == next_chain_key(
        chain_after(chain, (next.recv_count - 1) as nat),
    ));
    assert(!session.skipped.contains_key(session.recv_count));
    assert(next.skipped.dom() =~= session.skipped.dom().insert(session.recv_count));
}

proof fn lemma_skipping_keeps_bound(session: SessionView, number: u64)
    requires
        session.skipped.dom().finite(),
        session.skipped.len() <= MAX_SKIPPED_MESSAGE_KEYS,
    ensures
        session.skipping_to(number).0.skipped.dom().finite(),
        session.skipping_to(number).0.skipped.len() <= MAX_SKIPPED_MESSAGE_KEYS,
    decreases number - session.recv_count,
{
    if session.recv_count < number && session.skipped.len() < MAX_SKIPPED_MESSAGE_KEYS {
        let next = session.skipping_one();
        assert(next.skipped.dom() =~= session.skipped.dom().insert(session.recv_count));
        lemma_skipping_keeps_bound(next, number);
    }
}

proof fn lemma_skipping_beyond_room(session: SessionView, chain: Seq<u8>, number: u64)
    requires
        follows(session, chain),
        session.recv_count <= number,
        number - session.recv_count + session.skipped.len() > MAX_SKIPPED_MESSAGE_KEYS,
        session.skipped.len() <= MAX_SKIPPED_MESSAGE_KEYS,
    ensures
        !session.skipping_to(number).1,
        session.skipping_to(number).0.consumed == session.consumed,
    decreases number - session.recv_count,
{
    if session.recv_count < number && session.skipped.len() < MAX_SKIPPED_MESSAGE_KEYS {
        lemma_skipping_one(session, chain);
        lemma_skipping_beyond_room(session.skipping_one(), chain, number);
    }
}

proof fn lemma_skipping_frame(session: SessionView, number: u64)
    ensures
        session.skipping_to(number).0.consumed == session.consumed,
        session.skipping_to(number).0.peer == session.peer,
    decreases number - session.recv_count,
{
    if session.recv_count < number && session.skipped.len() < MAX_SKIPPED_MESSAGE_KEYS {
        lemma_skipping_frame(session.skipping_one(), number);
    }
}

/// Two sessions that start from one root key, on opposite sides and with each other's
/// public keys, can read each other.
pub proof fn law_sessions_start_paired(root: Seq<u8>, alice: Seq<u8>, bob: Seq<u8>)
    ensures
        ({
            let a = SessionView::start(root, RatchetRole::Alice, alice, x25519_public(bob));
            let b = SessionView::start(root, RatchetRole::Bob, bob, x25519_public(alice));
            &&& paired(a, b)
            &&& linked(a, b, alice_chain(root))
            &&& linked(b, a, bob_chain(root))
        }),
{
}

/// Sending keeps the receiver able to read: the next message is on the same chain, and
/// what was sent is sealed under the key that the chain gives to its number.
pub proof fn law_sending_keeps_link(
    sender: SessionView,
    receiver: SessionView,
    chain: Seq<u8>,
    message: MessageView,
    text: Seq<char>,
)
    requires
        linked(sender, receiver, chain),
        sender.can_send(),
        is_sent(sender, message, text),
    ensures
        linked(sender.send_advanced(), receiver, chain),
        is_sealed(message, message_key_at(chain, message.number), text),
        message.ratchet_public_key == receiver.peer,
{
    assert(chain_after(chain, (sender.send_count + 1) as nat) == next_chain_key(
        chain_after(chain, sender.send_count as nat),
    ));
}

/// A message of the chain that `receiver` follows is read, whether it arrives in order,
/// early within the room for kept keys, or late with its key kept. Afterwards it counts
/// as decrypted, and the receiver still follows the chain.
pub proof fn law_message_is_read(
    receiver: SessionView,
    chain: Seq<u8>,
    message: MessageView,
    text: Seq<char>,
)
    requires
        follows(receiver, chain),
        is_sealed(message, message_key_at(chain, message.number), text),
        message.ratchet_public_key == receiver.peer,
        message.number < u64::MAX,
        has_room_for(receiver, message.number),
    ensures
        receiver.can_receive(message),
        receiver.receiving(message).1 == Ok::<Seq<char>, CryptoError>(text),
        follows(receiver.receiving(message).0, chain),
        receiver.receiving(message).0.consumed == receiver.consumed.insert(message.number),
        receiver.receiving(message).0.peer == receiver.peer,
{
    encode_utf8_valid_utf8(text);
    encode_utf8_decode_utf8(text);
    if !receiver.skipped.contains_key(message.number) {
        lemma_skipping_within_room(receiver, chain, message.number);
        let passed = receiver.skipping_to(message.number).0;
        assert(chain_after(chain, (passed.recv_count + 1) as nat) == next_chain_key(
            chain_after(chain, passed.recv_count as nat),
        ));
    } else {
        let taken = receiver.taking_key(message.number).0;
        assert(taken.skipped.dom() =~= receiver.skipped.dom().remove(message.number));
    }
}

/// A message that was decrypted is refused when it arrives again, and changes nothing.
pub proof fn law_replay_is_refused(receiver: SessionView, message: MessageView)
    requires
        receiver.receiving(message).1 is Ok,
    ensures
        receiver.receiving(message).0.receiving(message) == (
            receiver.receiving(message).0,
            Err::<Seq<char>, CryptoError>(CryptoError::Replay),
        ),
{
    let met = receiver.meeting(message.ratchet_public_key);
    lemma_skipping_frame(met, message.number);
}

/// No arrival makes a session keep more than the greatest number of keys.
pub proof fn law_kept_keys_are_bounded(receiver: SessionView, message: MessageView)
    requires
        receiver.skipped.dom().finite(),
        receiver.skipped.len() <= MAX_SKIPPED_MESSAGE_KEYS,
    ensures
        receiver.receiving(message).0.skipped.dom().finite(),
        receiver.receiving(message).0.skipped.len() <= MAX_SKIPPED_MESSAGE_KEYS,
{
    let met = receiver.meeting(message.ratchet_public_key);
    lemma_skipping_keeps_bound(met, message.number);
    assert(met.skipped.remove(message.number).dom() =~= met.skipped.dom().remove(message.number));
}

/// A message that would need more kept keys than there is room for is refused, and
/// nothing counts as decrypted for it.
pub proof fn law_gap_beyond_room_is_refused(
    receiver: SessionView,
    chain: Seq<u8>,
    message: MessageView,
)
    requires
        follows(receiver, chain),
        receiver.skipped.len() <= MAX_SKIPPED_MESSAGE_KEYS,
        message.ratchet_public_key == receiver.peer,
        receiver.recv_count <= message.number,
        message.number - receiver.recv_count + receiver.skipped.len() > MAX_SKIPPED_MESSAGE_KEYS,
    ensures
        receiver.receiving(message).1 == Err::<Seq<char>, CryptoError>(
            CryptoError::TooManySkippedMessages,
        ),
        receiver.receiving(message).0.consumed == receiver.consumed,
{
    lemma_skipping_beyond_room(receiver, chain, message.number);
}

/// When one side takes a fresh ratchet key and the other side meets it, both have the
/// same new root key and can read each other on new chains.
pub proof fn law_ratchet_step_keeps_pair(a: SessionView, b: SessionView, fresh: Seq<u8>)
    requires
        paired(a, b),
        secrets_agree(fresh, b.dh_private),
        x25519_public(fresh) != b.peer,
    ensures
        ({
            let rotated = a.rotated(fresh);
            let met = b.meeting(x25519_public(fresh));
            &&& paired(rotated, met)
            &&& linked(rotated, met, rotated.send_chain_key)
            &&& linked(met, rotated, met.send_chain_key)
        }),
{
}

/// As long as the counter of a session is not near its end, the session can count every
/// message that may arrive: what would take it past the end is refused for its gap.
pub proof fn law_counter_has_room(receiver: SessionView, chain: Seq<u8>, message: MessageView)
    requires
        follows(receiver, chain),
        receiver.skipped.len() <= MAX_SKIPPED_MESSAGE_KEYS,
        receiver.recv_count + MAX_SKIPPED_MESSAGE_KEYS < u64::MAX,
    ensures
        receiver.can_receive(message),
{
    let met = receiver.meeting(message.ratchet_public_key);
    if message.number == u64::MAX {
        if message.ratchet_public_key == receiver.peer {
            lemma_skipping_beyond_room(met, chain, message.number);
        } else {
            assert(follows(met, met.recv_chain_key)) by {
                assert(chain_after(met.recv_chain_key, 0) == met.recv_chain_key);
            }
            lemma_skipping_beyond_room(met, met.recv_chain_key, message.number);
        }
    }
}

/// Whether `receiver` has read everything that `sender` has sent on the chain, in order.
pub open spec fn in_step(sender: SessionView, receiver: SessionView, chain: Seq<u8>) -> bool {
    &&& linked(sender, receiver, chain)
    &&& receiver.recv_count == sender.send_count
    &&& receiver.skipped == Map::<u64, Seq<u8>>::empty()
}

/// Messages that arrive in the order in which they were sent are all read.
pub proof fn law_messages_in_order_are_read(
    sender: SessionView,
    receiver: SessionView,
    chain: Seq<u8>,
    message: MessageView,
    text: Seq<char>,
)
    requires
        in_step(sender, receiver, chain),
        sender.can_send(),
        is_sent(sender, message, text),
    ensures
        receiver.can_receive(message),
        receiver.receiving(message).1 == Ok::<Seq<char>, CryptoError>(text),
        in_step(sender.send_advanced(), receiver.receiving(message).0, chain),
        receiver.receiving(message).0.root_key == receiver.root_key,
        receiver.receiving(message).0.send_count == receiver.send_count,
        receiver.receiving(message).0.send_chain_key == receiver.send_chain_key,
        receiver.receiving(message).0.dh_private == receiver.dh_private,
{
    law_sending_keeps_link(sender, receiver, chain, message, text);
    assert(!receiver.consumed.contains(message.number));
    law_message_is_read(receiver, chain, message, text);
}

/// Keys that stand in ascending order of their numbers are those of the map they stand for.
proof fn lemma_numbers_of_keys(entries: Seq<(u64, [u8; 32])>)
    requires
        forall|i: int, j: int| 0 <= i < j < entries.len() ==> entries[i].0 < entries[j].0,
    ensures
        forall|i: int|
            0 <= i < entries.len() ==> keys_by_number(entries).contains_key(
                (#[trigger] entries[i]).0,
            ) && keys_by_number(entries)[entries[i].0] == entries[i].1@,
        forall|n: u64| #[trigger]
            keys_by_number(entries).contains_key(n) ==> exists|i: int|
                0 <= i < entries.len() && (#[trigger] entries[i]).0 == n,
    decreases entries.len(),
{
    if entries.len() > 0 {
        let rest = entries.drop_last();
        lemma_numbers_of_keys(rest);
        let keys = keys_by_number(entries);
        assert(entries.last() == entries[entries.len() - 1]);
        assert forall|i: int| 0 <= i < entries.len() implies keys.contains_key(
            (#[trigger] entries[i]).0,
        ) && keys[entries[i].0] == entries[i].1@ by {
            if i < rest.len() {
                assert(rest[i] == entries[i]);
            }
        }
        assert forall|n: u64| #[trigger] keys.contains_key(n) implies exists|i: int|
            0 <= i < entries.len() && (#[trigger] entries[i]).0 == n by {
            if n != entries.last().0 {
                assert(keys_by_number(rest).contains_key(n));
                let i = choose|i: int| 0 <= i < rest.len() && (#[trigger] rest[i]).0 == n;
                assert(entries[i].0 == n);
            }
        }
    }
}

/// Two lists of keys in ascending order that stand for one map are one list.
proof fn lemma_keys_are_listed_one_way(left: Seq<(u64, [u8; 32])>, right: Seq<(u64, [u8; 32])>)
    requires
        forall|i: int, j: int| 0 <= i < j < left.len() ==> left[i].0 < left[j].0,
        forall|i: int, j: int| 0 <= i < j < right.len() ==> right[i].0 < right[j].0,
        keys_by_number(left) == keys_by_number(right),
    ensures
        left == right,
    decreases left.len(),
{
    lemma_numbers_of_keys(left);
    lemma_numbers_of_keys(right);
    if left.len() == 0 {
        if right.len() > 0 {
            assert(keys_by_number(right).contains_key(right[0].0));
        }
        assert(left =~= right);
    } else {
        let l = left[left.len() - 1];
        assert(keys_by_number(right).contains_key(l.0));
        let r = right[right.len() - 1];
        assert(keys_by_number(left).contains_key(r.0));
        let at = choose|i: int| 0 <= i < right.len() && (#[trigger] right[i]).0 == l.0;
        let back = choose|i: int| 0 <= i < left.len() && (#[trigger] left[i]).0 == r.0;
        assert(l.0 == r.0) by {
            if at < right.len() - 1 {
                assert(right[at].0 < r.0);
            }
            if back < left.len() - 1 {
                assert(left[back].0 < l.0);
            }
        }
        assert(l.1@ == r.1@);
        assert(l.1 =~= r.1);
        let less_left = left.drop_last();
        let less_right = right.drop_last();
        lemma_numbers_of_keys(less_left);
        lemma_numbers_of_keys(less_right);
        assert(keys_by_number(less_left) =~= keys_by_number(left).remove(l.0)) by {
            if keys_by_number(less_left).contains_key(l.0) {
                let i = choose|i: int|
                    0 <= i < less_left.len() && (#[trigger] less_left[i]).0 == l.0;
                assert(left[i].0 < l.0);
            }
        }
        assert(keys_by_number(less_right) =~= keys_by_number(right).remove(r.0)) by {
            if keys_by_number(less_right).contains_key(r.0) {
                let i = choose|i: int|
                    0 <= i < less_right.len() && (#[trigger] less_right[i]).0 == r.0;
                assert(right[i].0 < r.0);
            }
        }
        lemma_keys_are_listed_one_way(less_left, less_right);
        assert(left =~= less_left.push(l));
        assert(right =~= less_right.push(r));
    }
}

/// Two ascending lists of the same numbers are one list.
proof fn lemma_numbers_are_listed_one_way(left: Seq<u64>, right: Seq<u64>)
    requires
        forall|i: int, j: int| 0 <= i < j < left.len() ==> left[i] < left[j],
        forall|i: int, j: int| 0 <= i < j < right.len() ==> right[i] < right[j],
        left.to_set() == right.to_set(),
    ensures
        left == right,
    decreases left.len(),
{
    assert forall|n: u64| #[trigger] left.contains(n) == right.contains(n) by {
        assert(left.to_set().contains(n) == left.contains(n));
        assert(right.to_set().contains(n) == right.contains(n));
    }
    if left.len() == 0 {
        if right.len() > 0 {
            assert(right.contains(right[0]) && !left.contains(right[0]));
        }
        assert(left =~= right);
    } else {
        let l = left[left.len() - 1];
        assert(left.contains(l));
        let at = choose|i: int| 0 <= i < right.len() && right[i] == l;
        let r = right[right.len() - 1];
        assert(right.contains(r) && left.contains(r));
        let back = choose|i: int| 0 <= i < left.len() && left[i] == r;
        assert(l == r);
        let less_left = left.drop_last();
        let less_right = right.drop_last();
        assert forall|n: u64| less_left.contains(n) == less_right.contains(n) by {
            if less_left.contains(n) {
                let i = choose|i: int| 0 <= i < less_left.len() && less_left[i] == n;
                assert(left[i] == n && left[i] < l);
                assert(left.contains(n));
                assert(right.contains(n));
                let j = choose|j: int| 0 <= j < right.len() && right[j] == n;
                assert(less_right[j] == n);
            }
            if less_right.contains(n) {
                let i = choose|i: int| 0 <= i < less_right.len() && less_right[i] == n;
                assert(right[i] == n && right[i] < r);
                assert(right.contains(n));
                assert(left.contains(n));
                let j = choose|j: int| 0 <= j < left.len() && left[j] == n;
                assert(less_left[j] == n);
            }
        }
        assert(less_left.to_set() =~= less_right.to_set());
        lemma_numbers_are_listed_one_way(less_left, less_right);
        assert(left =~= less_left.push(l));
        assert(right =~= less_right.push(r));
    }
}

/// A session is exported in one way: two states of one session hold the same values.
pub proof fn law_session_has_one_state(left: RatchetSessionState, right: RatchetSessionState)
    requires
        left.is_sorted(),
        right.is_sorted(),
        left.session() == right.session(),
    ensures
        is_same_session(left, right),
{
    lemma_keys_are_listed_one_way(left.skipped_message_keys@, right.skipped_message_keys@);
    lemma_numbers_are_listed_one_way(
        left.consumed_message_numbers@,
        right.consumed_message_numbers@,
    );
    let a = left.session();
    let b = right.session();
    assert(left.root_key@ == a.root_key && right.root_key@ == b.root_key);
    assert(left.root_key =~= right.root_key);
    assert(left.send_chain_key@ == a.send_chain_key);
    assert(left.send_chain_key =~= right.send_chain_key);
    assert(left.recv_chain_key@ == a.recv_chain_key);
    assert(left.recv_chain_key =~= right.recv_chain_key);
    assert(left.dh_private_key@ == a.dh_private);
    assert(left.dh_private_key =~= right.dh_private_key);
    assert(left.peer_ratchet_public_key@ == a.peer);
    assert(left.peer_ratchet_public_key =~= right.peer_ratchet_public_key);
}

/// What passing over messages leaves: the keys that were kept stay, and the keys of the
/// messages that were passed over are kept with them.
proof fn lemma_skipping_keeps_keys(session: SessionView, chain: Seq<u8>, number: u64, n: u64)
    requires
        follows(session, chain),
        session.recv_count <= number,
    ensures
        follows(session.skipping_to(number).0, chain),
        session.skipping_to(number).0.recv_count <= number,
        session.skipped.contains_key(n) ==> session.skipping_to(number).0.skipped.contains_key(n)
            && session.skipping_to(number).0.skipped[n] == session.skipped[n],
        session.skipping_to(number).1 && session.recv_count <= n < number
            ==> session.skipping_to(number).0.skipped.contains_key(n),
        session.skipping_to(number).0.skipped.contains_key(n) ==> session.skipped.contains_key(n)
            || session.recv_count <= n < number,
        session.skipping_to(number).1 ==> session.skipping_to(number).0.recv_count == number,
        session.skipping_to(number).0.consumed == session.consumed,
        session.skipping_to(number).0.role == session.role,
        session.skipping_to(number).0.root_key == session.root_key,
        session.skipping_to(number).0.send_chain_key == session.send_chain_key,
        session.skipping_to(number).0.send_count == session.send_count,
        session.skipping_to(number).0.dh_private == session.dh_private,
        session.skipping_to(number).0.peer == session.peer,
    decreases number - session.recv_count,
{
    if session.recv_count < number && session.skipped.len() < MAX_SKIPPED_MESSAGE_KEYS {
        lemma_skipping_one(session, chain);
        lemma_skipping_keeps_keys(session.skipping_one(), chain, number, n);
    }
}

/// Reading one message takes away no other message's key, whatever becomes of that message:
/// a key that was kept stays the same, a key is kept anew only for a message that was passed
/// over, and only the message itself may count as read from then on.
pub proof fn law_other_keys_are_kept(
    receiver: SessionView,
    chain: Seq<u8>,
    message: MessageView,
    n: u64,
)
    requires
        follows(receiver, chain),
        message.ratchet_public_key == receiver.peer,
        receiver.can_receive(message),
        n != message.number,
    ensures
        ({
            let after = receiver.receiving(message).0;
            &&& receiver.skipped.contains_key(n) ==> after.skipped.contains_key(n)
                && after.skipped[n] == receiver.skipped[n]
            &&& after.skipped.contains_key(n) ==> receiver.skipped.contains_key(n)
                || receiver.recv_count <= n < message.number
            &&& after.consumed.contains(n) <==> receiver.consumed.contains(n)
        }),
{
    if !receiver.consumed.contains(message.number) && !receiver.skipped.contains_key(
        message.number,
    ) && receiver.recv_count <= message.number {
        lemma_skipping_keeps_keys(receiver, chain, message.number, n);
    }
}

/// A message that is read ahead of others leaves the keys of those that it overtook, and
/// the counter stands behind the latest message that was read.
pub proof fn law_overtaken_messages_can_be_read(
    receiver: SessionView,
    chain: Seq<u8>,
    message: MessageView,
    text: Seq<char>,
    n: u64,
)
    requires
        follows(receiver, chain),
        is_sealed(message, message_key_at(chain, message.number), text),
        message.ratchet_public_key == receiver.peer,
        message.number < u64::MAX,
        has_room_for(receiver, message.number),
    ensures
        ({
            let after = receiver.receiving(message).0;
            &&& receiver.recv_count <= n < message.number ==> after.skipped.contains_key(n)
                && after.skipped[n] == message_key_at(chain, n)
            &&& !after.skipped.contains_key(message.number)
            &&& after.recv_count == if message.number < receiver.recv_count {
                receiver.recv_count as int
            } else {
                message.number + 1
            }
        }),
{
    law_message_is_read(receiver, chain, message, text);
    if !receiver.skipped.contains_key(message.number) {
        lemma_skipping_within_room(receiver, chain, message.number);
        lemma_skipping_keeps_keys(receiver, chain, message.number, n);
        lemma_skipping_keeps_keys(receiver, chain, message.number, message.number);
    }
}

/// What arrives on the chain of the peer changes nothing of what is sent: neither the
/// sending chain nor its counter, neither the keys of the session nor the side it is on.
pub proof fn law_receiving_leaves_sending(
    receiver: SessionView,
    chain: Seq<u8>,
    message: MessageView,
)
    requires
        follows(receiver, chain),
        message.ratchet_public_key == receiver.peer,
        receiver.can_receive(message),
    ensures
        ({
            let after = receiver.receiving(message).0;
            &&& after.role == receiver.role
            &&& after.root_key == receiver.root_key
            &&& after.send_chain_key == receiver.send_chain_key
            &&& after.send_count == receiver.send_count
            &&& after.dh_private == receiver.dh_private
            &&& after.peer == receiver.peer
            &&& after.recv_count >= receiver.recv_count
        }),
{
    if !receiver.consumed.contains(message.number) && !receiver.skipped.contains_key(
        message.number,
    ) && receiver.recv_count <= message.number {
        lemma_skipping_keeps_keys(receiver, chain, message.number, 0);
        lemma_skipping_counts(receiver, message.number);
        if receiver.skipping_to(message.number).1 && message.number == u64::MAX {
            assert(false);
        }
    }
}

proof fn lemma_skipping_counts(session: SessionView, number: u64)
    requires
        session.recv_count <= number,
    ensures
        session.recv_count <= session.skipping_to(number).0.recv_count <= number,
    decreases number - session.recv_count,
{
    if session.recv_count < number && session.skipped.len() < MAX_SKIPPED_MESSAGE_KEYS {
        lemma_skipping_counts(session.skipping_one(), number);
    }
}

/// Sending one message changes nothing of what can be received, and moves the counter of
/// sent messages on by one.
pub proof fn law_sending_leaves_receiving(sender: SessionView)
    requires
        sender.can_send(),
    ensures
        ({
            let after = sender.send_advanced();
            &&& after.send_count == sender.send_count + 1
            &&& after.recv_chain_key == sender.recv_chain_key
            &&& after.recv_count == sender.recv_count
            &&& after.skipped == sender.skipped
            &&& after.consumed == sender.consumed
            &&& after.root_key == sender.root_key
            &&& after.dh_private == sender.dh_private
            &&& after.peer == sender.peer
            &&& after.role == sender.role
        }),
{
}

/// A session after messages arrived one after the other.
pub open spec fn after_all(receiver: SessionView, messages: Seq<MessageView>) -> SessionView
    decreases messages.len(),
{
    if messages.len() == 0 {
        receiver
    } else {
        after_all(receiver, messages.drop_last()).receiving(messages.last()).0
    }
}

/// Whether `messages` are some of the messages of a chain that follow those which `receiver`
/// has read, within the reach of the kept keys, each at most once and in any order.
pub open spec fn are_within_reach(
    receiver: SessionView,
    chain: Seq<u8>,
    messages: Seq<MessageView>,
    texts: Seq<Seq<char>>,
) -> bool {
    &&& texts.len() == messages.len()
    &&& forall|i: int|
        0 <= i < messages.len() ==> {
            &&& is_sealed(
                #[trigger] messages[i],
                message_key_at(chain, messages[i].number),
                texts[i],
            )
            &&& messages[i].ratchet_public_key == receiver.peer
            &&& receiver.recv_count <= messages[i].number <= receiver.recv_count
                + MAX_SKIPPED_MESSAGE_KEYS
            &&& messages[i].number < u64::MAX
        }
    &&& forall|i: int, j: int|
        0 <= i < j < messages.len() ==> (#[trigger] messages[i]).number != (
        #[trigger] messages[j]).number
}

/// Whether the messages with these numbers, and no others from `start` on, were read, and the
/// keys of all others that were passed over are kept.
spec fn has_read_just(
    session: SessionView,
    chain: Seq<u8>,
    start: u64,
    messages: Seq<MessageView>,
) -> bool {
    &&& follows(session, chain)
    &&& start <= session.recv_count
    &&& session.skipped.len() + start <= session.recv_count
    &&& forall|i: int|
        0 <= i < messages.len() ==> session.consumed.contains((#[trigger] messages[i]).number)
    &&& forall|n: u64|
        start <= n && (forall|i: int|
            0 <= i < messages.len() ==> (#[trigger] messages[i]).number != n) ==> {
            &&& !(#[trigger] session.consumed.contains(n))
            &&& session.skipped.contains_key(n) || session.recv_count <= n
        }
}

proof fn lemma_all_are_read(
    receiver: SessionView,
    chain: Seq<u8>,
    messages: Seq<MessageView>,
    texts: Seq<Seq<char>>,
)
    requires
        follows(receiver, chain),
        receiver.skipped == Map::<u64, Seq<u8>>::empty(),
        are_within_reach(receiver, chain, messages, texts),
    ensures
        has_read_just(after_all(receiver, messages), chain, receiver.recv_count, messages),
        after_all(receiver, messages).peer == receiver.peer,
        messages.len() > 0 ==> after_all(receiver, messages.drop_last()).can_receive(
            messages.last(),
        ) && after_all(receiver, messages.drop_last()).receiving(messages.last()).1 == Ok::<
            Seq<char>,
            CryptoError,
        >(texts.last()),
    decreases messages.len(),
{
    let start = receiver.recv_count;
    if messages.len() == 0 {
        assert forall|n: u64| start <= n implies !(#[trigger] receiver.consumed.contains(n)) by {}
    } else {
        let rest = messages.drop_last();
        let message = messages.last();
        let at = messages.len() - 1;
        assert(messages[at] == message && texts[at] == texts.last());
        assert forall|i: int| 0 <= i < rest.len() implies rest[i] == messages[i] by {}
        assert(are_within_reach(receiver, chain, rest, texts.drop_last())) by {
            assert forall|i: int| 0 <= i < rest.len() implies {
                &&& is_sealed(
                    #[trigger] rest[i],
                    message_key_at(chain, rest[i].number),
                    texts.drop_last()[i],
                )
                &&& rest[i].ratchet_public_key == receiver.peer
                &&& receiver.recv_count <= rest[i].number <= receiver.recv_count
                    + MAX_SKIPPED_MESSAGE_KEYS
                &&& rest[i].number < u64::MAX
            } by {
                assert(messages[i] == rest[i]);
            }
        }
        lemma_all_are_read(receiver, chain, rest, texts.drop_last());
        let before = after_all(receiver, rest);
        let number = message.number;
        assert forall|i: int| 0 <= i < rest.len() implies (#[trigger] rest[i]).number != number by {
            assert(messages[i].number != messages[at].number);
        }
        assert(!before.consumed.contains(number));
        assert(has_room_for(before, number));
        law_message_is_read(before, chain, message, texts.last());
        let after = before.receiving(message).0;
        if !before.skipped.contains_key(number) {
            lemma_skipping_within_room(before, chain, number);
        } else {
            assert(after.skipped.dom() =~= before.skipped.dom().remove(number));
        }
        law_overtaken_messages_can_be_read(before, chain, message, texts.last(), number);
        assert forall|i: int| 0 <= i < messages.len() implies after.consumed.contains(
            (#[trigger] messages[i]).number,
        ) by {
            if i < rest.len() {
                assert(before.consumed.contains(rest[i].number));
            }
        }
        assert forall|n: u64|
            start <= n && (forall|i: int|
                0 <= i < messages.len() ==> (#[trigger] messages[i]).number != n) implies {
            &&& !(#[trigger] after.consumed.contains(n))
            &&& after.skipped.contains_key(n) || after.recv_count <= n
        } by {
            assert(messages[at].number != n);
            assert forall|i: int| 0 <= i < rest.len() implies (#[trigger] rest[i]).number != n by {
                assert(messages[i].number != n);
            }
            assert(!before.consumed.contains(n));
            law_other_keys_are_kept(before, chain, message, n);
            law_overtaken_messages_can_be_read(before, chain, message, texts.last(), n);
        }
    }
}

/// Messages of a chain are all read in whatever order they arrive, as long as none is
/// further ahead than keys are kept for: any order of up to nine messages in a row.
pub proof fn law_messages_in_any_order_are_read(
    receiver: SessionView,
    chain: Seq<u8>,
    messages: Seq<MessageView>,
    texts: Seq<Seq<char>>,
    i: int,
)
    requires
        follows(receiver, chain),
        receiver.skipped == Map::<u64, Seq<u8>>::empty(),
        are_within_reach(receiver, chain, messages, texts),
        0 <= i < messages.len(),
    ensures
        after_all(receiver, messages.take(i)).receiving(messages[i]).1 == Ok::<
            Seq<char>,
            CryptoError,
        >(texts[i]),
{
    let first = messages.take(i + 1);
    let told = texts.take(i + 1);
    assert forall|k: int| 0 <= k < first.len() implies {
        &&& is_sealed(#[trigger] first[k], message_key_at(chain, first[k].number), told[k])
        &&& first[k].ratchet_public_key == receiver.peer
        &&& receiver.recv_count <= first[k].number <= receiver.recv_count
            + MAX_SKIPPED_MESSAGE_KEYS
        &&& first[k].number < u64::MAX
    } by {
        assert(messages[k] == first[k]);
    }
    assert forall|k: int, j: int| 0 <= k < j < first.len() implies (#[trigger] first[k]).number
        != (#[trigger] first[j]).number by {
        assert(messages[k].number != messages[j].number);
    }
    lemma_all_are_read(receiver, chain, first, told);
    assert(first.drop_last() =~= messages.take(i));
}

/// As many as nine messages in a row can arrive in any order.
pub proof fn law_eight_keys_are_kept()
    ensures
        MAX_SKIPPED_MESSAGE_KEYS == 8,
{
}

/// What one side says after it has taken a fresh ratchet key is read by the other side,
/// which learns the key from the message.
pub proof fn law_message_after_rotation_is_read(
    a: SessionView,
    b: SessionView,
    fresh: Seq<u8>,
    message: MessageView,
    text: Seq<char>,
)
    requires
        paired(a, b),
        secrets_agree(fresh, b.dh_private),
        x25519_public(fresh) != b.peer,
        is_sent(a.rotated(fresh), message, text),
    ensures
        b.can_receive(message),
        b.receiving(message).1 == Ok::<Seq<char>, CryptoError>(text),
        b.receiving(message).0.peer == x25519_public(fresh),
        message.number == 0,
        message.ratchet_public_key == x25519_public(fresh),
{
    law_ratchet_step_keeps_pair(a, b, fresh);
    let rotated = a.rotated(fresh);
    let met = b.meeting(x25519_public(fresh));
    assert(chain_after(rotated.send_chain_key, 0) == rotated.send_chain_key);
    law_message_is_read(met, rotated.send_chain_key, message, text);
    assert(met.meeting(message.ratchet_public_key) == met);
    assert(b.meeting(message.ratchet_public_key) == met);
}

/// A message that cannot be opened uses its key up: whatever comes under its number from then
/// on is refused as a replay.
pub proof fn law_unreadable_message_uses_up_its_key(
    receiver: SessionView,
    chain: Seq<u8>,
    message: MessageView,
    again: MessageView,
)
    requires
        follows(receiver, chain),
        message.ratchet_public_key == receiver.peer,
        receiver.can_receive(message),
        receiver.receiving(message).1 == Err::<Seq<char>, CryptoError>(CryptoError::Decrypt),
        again.number == message.number,
        again.ratchet_public_key == message.ratchet_public_key,
    ensures
        receiver.receiving(message).0.receiving(again) == (
            receiver.receiving(message).0,
            Err::<Seq<char>, CryptoError>(CryptoError::Replay),
        ),
        receiver.receiving(message).0.consumed == receiver.consumed,
{
    let number = message.number;
    if !receiver.skipped.contains_key(number) && receiver.recv_count <= number {
        lemma_skipping_keeps_keys(receiver, chain, number, number);
    }
}

/// A replay changes nothing.
pub proof fn law_replay_changes_nothing(receiver: SessionView, message: MessageView)
    requires
        message.ratchet_public_key == receiver.peer,
        receiver.receiving(message).1 == Err::<Seq<char>, CryptoError>(CryptoError::Replay),
    ensures
        receiver.receiving(message).0 == receiver,
{
}

/// A number that was read, or passed and not kept, is a replay; any other is not.
pub proof fn law_replay_is_of_a_passed_number(
    receiver: SessionView,
    chain: Seq<u8>,
    message: MessageView,
)
    requires
        follows(receiver, chain),
        message.ratchet_public_key == receiver.peer,
    ensures
        receiver.receiving(message).1 == Err::<Seq<char>, CryptoError>(CryptoError::Replay) <==> {
            ||| receiver.consumed.contains(message.number)
            ||| message.number < receiver.recv_count && !receiver.skipped.contains_key(
                message.number,
            )
        },
{
}

/// A message that is too far ahead is refused with as many keys kept as may be: those of the
/// messages that come next.
pub proof fn law_gap_fills_the_kept_keys(
    receiver: SessionView,
    chain: Seq<u8>,
    message: MessageView,
)
    requires
        follows(receiver, chain),
        message.ratchet_public_key == receiver.peer,
        receiver.skipped.len() <= MAX_SKIPPED_MESSAGE_KEYS,
        receiver.receiving(message).1 == Err::<Seq<char>, CryptoError>(
            CryptoError::TooManySkippedMessages,
        ),
    ensures
        receiver.receiving(message).0.skipped.len() == MAX_SKIPPED_MESSAGE_KEYS,
        receiver.receiving(message).0.recv_count == receiver.recv_count + (
        MAX_SKIPPED_MESSAGE_KEYS - receiver.skipped.len()),
{
    lemma_gap_fills(receiver, chain, message.number);
}

proof fn lemma_gap_fills(session: SessionView, chain: Seq<u8>, number: u64)
    requires
        follows(session, chain),
        session.skipped.len() <= MAX_SKIPPED_MESSAGE_KEYS,
        !session.skipping_to(number).1,
    ensures
        session.skipping_to(number).0.skipped.len() == MAX_SKIPPED_MESSAGE_KEYS,
        session.skipping_to(number).0.recv_count == session.recv_count + (MAX_SKIPPED_MESSAGE_KEYS
            - session.skipped.len()),
    decreases number - session.recv_count,
{
    if session.recv_count < number && session.skipped.len() < MAX_SKIPPED_MESSAGE_KEYS {
        lemma_skipping_one(session, chain);
        lemma_gap_fills(session.skipping_one(), chain, number);
    }
}

/// A new ratchet key of the peer starts new chains in both directions, on which nothing was
/// sent, read or passed over; the side and the own ratchet key stay.
pub proof fn law_new_ratchet_key_starts_anew(session: SessionView, peer: Seq<u8>, n: u64)
    requires
        peer != session.peer,
    ensures
        ({
            let met = session.meeting(peer);
            &&& met.peer == peer
            &&& met.send_count == 0
            &&& met.recv_count == 0
            &&& !met.consumed.contains(n)
            &&& !met.skipped.contains_key(n)
            &&& met.role == session.role
            &&& met.dh_private == session.dh_private
        }),
        session.meeting(session.peer) == session,
{
}

/// Taking a fresh ratchet key starts new chains as well; the side and the peer stay.
pub proof fn law_rotation_starts_anew(session: SessionView, fresh: Seq<u8>, n: u64)
    ensures
        ({
            let rotated = session.rotated(fresh);
            &&& rotated.dh_private == fresh
            &&& rotated.peer == session.peer
            &&& rotated.role == session.role
            &&& rotated.send_count == 0
            &&& rotated.recv_count == 0
            &&& !rotated.consumed.contains(n)
            &&& !rotated.skipped.contains_key(n)
        }),
{
}

/// Whoever opens a conversation sends on the chain on which the other side receives, and the
/// other way round.
pub proof fn law_sides_use_opposite_chains<T>(from_alice: T, from_bob: T)
    ensures
        RatchetRole::Alice.sends_on(from_alice, from_bob) == from_alice,
        RatchetRole::Alice.receives_on(from_alice, from_bob) == from_bob,
        RatchetRole::Bob.sends_on(from_alice, from_bob) == from_bob,
        RatchetRole::Bob.receives_on(from_alice, from_bob) == from_alice,
{
}

} // verus!
