//! A ratchet session: it numbers and encrypts what one side sends and decrypts, in
//! limited disorder and at most once, what the other side sent.

use crate::bytes::{same_bytes, utf8};
use crate::error::CryptoError;
use crate::primitives::{
    aead_open, aead_overruns, aead_seal, chacha20poly1305_open, chacha20poly1305_seal,
    x25519_public, x25519_shared,
};
use crate::ratchet::{
    aad_bytes, advance_chain, alice_chain, bob_chain, derive_dh_ratchet_state,
    derive_directional_chains, dh_ratchet_output, message_key, next_chain_key, nonce_bytes,
    nonce_for, ratchet_aad, secrets_agree, PublicKeyBytes, X25519KeyPair, MAX_SKIPPED_MESSAGE_KEYS,
};
use std::collections::BTreeMap;
use vstd::prelude::*;
use vstd::std_specs::cmp::OrdSpec;
use vstd::std_specs::iter::IteratorSpec;
use vstd::utf8::{decode_utf8, valid_utf8};

verus! {

broadcast use vstd::std_specs::btree::group_btree_axioms;

/// One encrypted, numbered message.
#[derive(Debug, Clone, PartialEq, Eq)]
pub struct RatchetMessage {
    pub number: u64,
    pub ratchet_public_key: PublicKeyBytes,
    pub ciphertext: Vec<u8>,
}

/// The contents of a `RatchetMessage`.
pub struct MessageView {
    pub number: u64,
    pub ratchet_public_key: Seq<u8>,
    pub ciphertext: Seq<u8>,
}

impl View for RatchetMessage {
    type V = MessageView;

    open spec fn view(&self) -> MessageView {
        MessageView {
            number: self.number,
            ratchet_public_key: self.ratchet_public_key@,
            ciphertext: self.ciphertext@,
        }
    }
}

/// Which side of a session a party is on, as it is stored.
#[derive(Debug, Clone, Copy, PartialEq, Eq, Structural)]
pub enum RatchetRoleState {
    Alice,
    Bob,
}

/// Which side of a session a party is on. It decides which chain it sends on.
#[derive(Debug, Clone, Copy, PartialEq, Eq, Structural)]
pub enum RatchetRole {
    Alice,
    Bob,
}

impl RatchetRole {
    /// The stored form of the role.
    pub open spec fn stored(self) -> RatchetRoleState {
        match self {
            RatchetRole::Alice => RatchetRoleState::Alice,
            RatchetRole::Bob => RatchetRoleState::Bob,
        }
    }

    /// The chain that the role sends on, of the chain from Alice and the chain from Bob.
    pub open spec fn sends_on<T>(self, from_alice: T, from_bob: T) -> T {
        match self {
            RatchetRole::Alice => from_alice,
            RatchetRole::Bob => from_bob,
        }
    }

    /// The chain that the role receives on.
    pub open spec fn receives_on<T>(self, from_alice: T, from_bob: T) -> T {
        match self {
            RatchetRole::Alice => from_bob,
            RatchetRole::Bob => from_alice,
        }
    }

    pub fn state(self) -> (state: RatchetRoleState)
        ensures
            state == self.stored(),
    {
        match self {
            RatchetRole::Alice => RatchetRoleState::Alice,
            RatchetRole::Bob => RatchetRoleState::Bob,
        }
    }

    pub fn from_state(state: RatchetRoleState) -> (role: RatchetRole)
        ensures
            role.stored() == state,
    {
        match state {
            RatchetRoleState::Alice => RatchetRole::Alice,
            RatchetRoleState::Bob => RatchetRole::Bob,
        }
    }

    /// The sending and the receiving chain of the role.
    pub fn chains(self, first: [u8; 32], second: [u8; 32]) -> (chains: ([u8; 32], [u8; 32]))
        ensures
            chains.0 == self.sends_on(first, second),
            chains.1 == self.receives_on(first, second),
    {
        match self {
            RatchetRole::Alice => (first, second),
            RatchetRole::Bob => (second, first),
        }
    }
}

/// Everything that a session consists of.
#[verifier::ext_equal]
pub struct SessionView {
    pub role: RatchetRole,
    pub root_key: Seq<u8>,
    pub send_chain_key: Seq<u8>,
    pub recv_chain_key: Seq<u8>,
    pub send_count: u64,
    pub recv_count: u64,
    /// The keys of messages that were passed over, by message number.
    pub skipped: Map<u64, Seq<u8>>,
    /// The numbers of the messages that were decrypted.
    pub consumed: Set<u64>,
    pub dh_private: Seq<u8>,
    pub peer: Seq<u8>,
}

impl SessionView {
    /// A session at its start.
    pub open spec fn start(
        root_key: Seq<u8>,
        role: RatchetRole,
        dh_private: Seq<u8>,
        peer: Seq<u8>,
    ) -> SessionView {
        SessionView {
            role,
            root_key,
            send_chain_key: role.sends_on(alice_chain(root_key), bob_chain(root_key)),
            recv_chain_key: role.receives_on(alice_chain(root_key), bob_chain(root_key)),
            send_count: 0,
            recv_count: 0,
            skipped: Map::empty(),
            consumed: Set::empty(),
            dh_private,
            peer,
        }
    }

    /// The session after it has used its sending chain once.
    pub open spec fn send_advanced(self) -> SessionView {
        SessionView {
            send_chain_key: next_chain_key(self.send_chain_key),
            send_count: (self.send_count + 1) as u64,
            ..self
        }
    }

    /// The session after it has used its receiving chain once.
    pub open spec fn recv_advanced(self) -> SessionView {
        SessionView {
            recv_chain_key: next_chain_key(self.recv_chain_key),
            recv_count: (self.recv_count + 1) as u64,
            ..self
        }
    }

    /// The session after a Diffie-Hellman ratchet step: new root, new chains, and
    /// nothing sent, received or passed over on them yet.
    pub open spec fn ratcheted(self, dh_output: Seq<u8>) -> SessionView {
        let output = dh_ratchet_output(self.root_key, dh_output);
        SessionView {
            root_key: output.subrange(0, 32),
            send_chain_key: self.role.sends_on(output.subrange(32, 64), output.subrange(64, 96)),
            recv_chain_key: self.role.receives_on(output.subrange(32, 64), output.subrange(64, 96)),
            send_count: 0,
            recv_count: 0,
            skipped: Map::empty(),
            consumed: Set::empty(),
            ..self
        }
    }

    /// The session after it has taken `dh_private` for its own ratchet key.
    pub open spec fn rotated(self, dh_private: Seq<u8>) -> SessionView {
        (SessionView { dh_private, ..self }).ratcheted(x25519_shared(dh_private, self.peer))
    }

    /// The session once the peer is known to use the ratchet key `peer`.
    pub open spec fn meeting(self, peer: Seq<u8>) -> SessionView {
        if peer == self.peer {
            self
        } else {
            (SessionView { peer, ..self }).ratcheted(x25519_shared(self.dh_private, peer))
        }
    }

    /// The session after the next message was passed over and its key kept.
    pub open spec fn skipping_one(self) -> SessionView {
        SessionView {
            skipped: self.skipped.insert(self.recv_count, message_key(self.recv_chain_key)),
            ..self.recv_advanced()
        }
    }

    /// The session after all messages before `number` were passed over, with `true`; or,
    /// with `false`, the session at the point where no more keys may be kept.
    pub open spec fn skipping_to(self, number: u64) -> (SessionView, bool)
        decreases number - self.recv_count,
    {
        if self.recv_count >= number {
            (self, true)
        } else if self.skipped.len() >= MAX_SKIPPED_MESSAGE_KEYS {
            (self, false)
        } else {
            self.skipping_one().skipping_to(number)
        }
    }

    /// The session after the key of message `number` was taken out of it, and that key;
    /// or why there is none.
    pub open spec fn taking_key(self, number: u64) -> (SessionView, Result<Seq<u8>, CryptoError>) {
        if self.consumed.contains(number) {
            (self, Err(CryptoError::Replay))
        } else if self.skipped.contains_key(number) {
            (
                SessionView { skipped: self.skipped.remove(number), ..self },
                Ok(self.skipped[number]),
            )
        } else if number < self.recv_count {
            (self, Err(CryptoError::Replay))
        } else {
            let (passed, reached) = self.skipping_to(number);
            if reached {
                (passed.recv_advanced(), Ok(message_key(passed.recv_chain_key)))
            } else {
                (passed, Err(CryptoError::TooManySkippedMessages))
            }
        }
    }

    /// The session after a message arrived, and the text of the message or why there is
    /// none.
    pub open spec fn receiving(self, message: MessageView) -> (
        SessionView,
        Result<Seq<char>, CryptoError>,
    ) {
        let (taken, key) = self.meeting(message.ratchet_public_key).taking_key(message.number);
        match key {
            Err(error) => (taken, Err(error)),
            Ok(key) => match aead_open(
                key,
                nonce_bytes(message.number),
                aad_bytes(message.number, message.ratchet_public_key),
                message.ciphertext,
            ) {
                None => (taken, Err(CryptoError::Decrypt)),
                Some(plaintext) => {
                    let consumed = SessionView {
                        consumed: taken.consumed.insert(message.number),
                        ..taken
                    };
                    if valid_utf8(plaintext) {
                        (consumed, Ok(decode_utf8(plaintext)))
                    } else {
                        (consumed, Err(CryptoError::Utf8))
                    }
                },
            },
        }
    }

    /// Whether the message counter can count one more message that is sent.
    pub open spec fn can_send(self) -> bool {
        self.send_count < u64::MAX
    }

    /// Whether the message counter can count a message that arrives: it cannot go past
    /// the greatest number there is.
    pub open spec fn can_receive(self, message: MessageView) -> bool {
        let met = self.meeting(message.ratchet_public_key);
        message.number == u64::MAX ==> {
            ||| met.consumed.contains(message.number)
            ||| met.skipped.contains_key(message.number)
            ||| !met.skipping_to(message.number).1
        }
    }
}

/// Whether `message` is what encrypting `text` gives under `key`, for the number and
/// ratchet key that it carries.
pub open spec fn is_sealed(message: MessageView, key: Seq<u8>, text: Seq<char>) -> bool {
    &&& message.ciphertext == aead_seal(
        key,
        nonce_bytes(message.number),
        aad_bytes(message.number, message.ratchet_public_key),
        utf8(text),
    )
    &&& aead_open(
        key,
        nonce_bytes(message.number),
        aad_bytes(message.number, message.ratchet_public_key),
        message.ciphertext,
    ) == Some(utf8(text))
    &&& message.ciphertext.len() == utf8(text).len() + 16
}

/// Whether `message` is what the session `sender` sends next to say `text`.
pub open spec fn is_sent(sender: SessionView, message: MessageView, text: Seq<char>) -> bool {
    &&& message.number == sender.send_count
    &&& message.ratchet_public_key == x25519_public(sender.dh_private)
    &&& is_sealed(message, message_key(sender.send_chain_key), text)
}

/// Whether the cipher answers on the ciphertext of `message`.
pub fn is_within_cipher(message: &RatchetMessage) -> (answer: bool)
    ensures
        answer == !aead_overruns(message@.ciphertext.len() - 16),
{
    let len: u64 = message.ciphertext.len() as u64;
    len <= 64 * 0xffff_fffe + 16 || len >= 64 * 0xffff_ffff + 16
}

/// A session in the form in which it is stored.
#[derive(Debug, Clone, PartialEq, Eq)]
pub struct RatchetSessionState {
    pub role: RatchetRoleState,
    pub root_key: [u8; 32],
    pub send_chain_key: [u8; 32],
    pub recv_chain_key: [u8; 32],
    pub send_count: u64,
    pub recv_count: u64,
    pub skipped_message_keys: Vec<(u64, [u8; 32])>,
    pub consumed_message_numbers: Vec<u64>,
    pub dh_private_key: [u8; 32],
    pub peer_ratchet_public_key: PublicKeyBytes,
}

/// The map that a list of numbered keys stands for; of two entries with one number the
/// later counts.
pub open spec fn keys_by_number(entries: Seq<(u64, [u8; 32])>) -> Map<u64, Seq<u8>>
    decreases entries.len(),
{
    if entries.len() == 0 {
        Map::empty()
    } else {
        keys_by_number(entries.drop_last()).insert(entries.last().0, entries.last().1@)
    }
}

impl RatchetSessionState {
    /// The session that the state stands for.
    pub open spec fn session(self) -> SessionView {
        SessionView {
            role: match self.role {
                RatchetRoleState::Alice => RatchetRole::Alice,
                RatchetRoleState::Bob => RatchetRole::Bob,
            },
            root_key: self.root_key@,
            send_chain_key: self.send_chain_key@,
            recv_chain_key: self.recv_chain_key@,
            send_count: self.send_count,
            recv_count: self.recv_count,
            skipped: keys_by_number(self.skipped_message_keys@),
            consumed: self.consumed_message_numbers@.to_set(),
            dh_private: self.dh_private_key@,
            peer: self.peer_ratchet_public_key@,
        }
    }

    /// Whether the numbered entries stand in ascending order, each number once.
    pub open spec fn is_sorted(self) -> bool {
        &&& forall|i: int, j: int|
            0 <= i < j < self.skipped_message_keys@.len() ==> self.skipped_message_keys@[i].0
                < self.skipped_message_keys@[j].0
        &&& forall|i: int, j: int|
            0 <= i < j < self.consumed_message_numbers@.len() ==> self.consumed_message_numbers@[i]
                < self.consumed_message_numbers@[j]
    }
}

/// Whether two stored sessions hold the same values.
pub open spec fn is_same_session(left: RatchetSessionState, right: RatchetSessionState) -> bool {
    &&& left.role == right.role
    &&& left.root_key == right.root_key
    &&& left.send_chain_key == right.send_chain_key
    &&& left.recv_chain_key == right.recv_chain_key
    &&& left.send_count == right.send_count
    &&& left.recv_count == right.recv_count
    &&& left.skipped_message_keys@ == right.skipped_message_keys@
    &&& left.consumed_message_numbers@ == right.consumed_message_numbers@
    &&& left.dh_private_key == right.dh_private_key
    &&& left.peer_ratchet_public_key == right.peer_ratchet_public_key
}

/// One side of an encrypted conversation.
pub struct RatchetSession {
    role: RatchetRole,
    root_key: [u8; 32],
    send_chain_key: [u8; 32],
    recv_chain_key: [u8; 32],
    send_count: u64,
    recv_count: u64,
    skipped_message_keys: BTreeMap<u64, [u8; 32]>,
    consumed_message_numbers: BTreeMap<u64, ()>,
    dh_keys: X25519KeyPair,
    peer_ratchet_public_key: PublicKeyBytes,
}

/// The map with each key replaced by its bytes.
spec fn key_bytes(keys: Map<u64, [u8; 32]>) -> Map<u64, Seq<u8>> {
    keys.map_values(|key: [u8; 32]| key@)
}

proof fn lemma_key_bytes(keys: Map<u64, [u8; 32]>)
    ensures
        key_bytes(keys).dom() == keys.dom(),
        key_bytes(keys).len() == keys.len(),
        forall|n: u64| #[trigger] keys.contains_key(n) ==> key_bytes(keys)[n] == keys[n]@,
        forall|n: u64, key: [u8; 32]| #[trigger]
            key_bytes(keys.insert(n, key)) == key_bytes(keys).insert(n, key@),
        forall|n: u64| #[trigger] key_bytes(keys.remove(n)) == key_bytes(keys).remove(n),
{
    assert(key_bytes(keys).dom() =~= keys.dom());
    assert forall|n: u64, key: [u8; 32]| #[trigger]
        key_bytes(keys.insert(n, key)) == key_bytes(keys).insert(n, key@) by {
        assert(key_bytes(keys.insert(n, key)) =~= key_bytes(keys).insert(n, key@));
    }
    assert forall|n: u64| #[trigger] key_bytes(keys.remove(n)) == key_bytes(keys).remove(n) by {
        assert(key_bytes(keys.remove(n)) =~= key_bytes(keys).remove(n));
    }
}

proof fn lemma_take_to_set(numbers: Seq<u64>, k: int)
    requires
        0 <= k < numbers.len(),
    ensures
        numbers.take(k + 1).to_set() == numbers.take(k).to_set().insert(numbers[k]),
{
    let before = numbers.take(k);
    let after = numbers.take(k + 1);
    assert forall|n: u64| #[trigger] after.to_set().contains(n) <==> before.to_set().insert(
        numbers[k],
    ).contains(n) by {
        if after.contains(n) {
            let i = choose|i: int| 0 <= i < after.len() && after[i] == n;
            if i < k {
                assert(before[i] == n);
            }
        }
        if before.contains(n) {
            let i = choose|i: int| 0 <= i < before.len() && before[i] == n;
            assert(after[i] == n);
        }
        assert(after[k] == numbers[k]);
    }
    assert(after.to_set() =~= before.to_set().insert(numbers[k]));
}

/// A list that holds each entry of a map once stands for that map.
proof fn lemma_entries_to_map(entries: Seq<(u64, [u8; 32])>, keys: Map<u64, [u8; 32]>)
    requires
        forall|i: int, j: int| 0 <= i < j < entries.len() ==> entries[i].0 < entries[j].0,
        forall|i: int|
            0 <= i < entries.len() ==> keys.contains_key((#[trigger] entries[i]).0)
                && keys[entries[i].0] == entries[i].1,
        forall|n: u64| #[trigger]
            keys.contains_key(n) ==> exists|i: int|
                0 <= i < entries.len() && (#[trigger] entries[i]).0 == n,
    ensures
        keys_by_number(entries) == key_bytes(keys),
    decreases entries.len(),
{
    lemma_key_bytes(keys);
    if entries.len() == 0 {
        assert(keys_by_number(entries) =~= key_bytes(keys));
    } else {
        let last = entries.last();
        let rest = entries.drop_last();
        assert forall|i: int| 0 <= i < rest.len() implies keys.remove(last.0).contains_key(
            (#[trigger] rest[i]).0,
        ) && keys.remove(last.0)[rest[i].0] == rest[i].1 by {
            assert(rest[i] == entries[i]);
            assert(entries[i].0 < entries[entries.len() - 1].0);
        }
        assert forall|n: u64| #[trigger] keys.remove(last.0).contains_key(n) implies exists|i: int|
            0 <= i < rest.len() && (#[trigger] rest[i]).0 == n by {
            assert(keys.contains_key(n));
            let i = choose|i: int| 0 <= i < entries.len() && (#[trigger] entries[i]).0 == n;
            assert(i < rest.len());
            assert(rest[i].0 == n);
        }
        lemma_entries_to_map(rest, keys.remove(last.0));
        assert(entries[entries.len() - 1] == last);
        assert(keys_by_number(entries) =~= key_bytes(keys));
    }
}

impl View for RatchetSession {
    type V = SessionView;

    closed spec fn view(&self) -> SessionView {
        SessionView {
            role: self.role,
            root_key: self.root_key@,
            send_chain_key: self.send_chain_key@,
            recv_chain_key: self.recv_chain_key@,
            send_count: self.send_count,
            recv_count: self.recv_count,
            skipped: key_bytes(self.skipped_message_keys@),
            consumed: self.consumed_message_numbers@.dom(),
            dh_private: self.dh_keys.secret(),
            peer: self.peer_ratchet_public_key@,
        }
    }
}

impl RatchetSession {
    /// Starts a session from a root key.
    pub fn new(
        root_key: [u8; 32],
        role: RatchetRole,
        dh_keys: X25519KeyPair,
        peer_ratchet_public_key: PublicKeyBytes,
    ) -> (session: Result<RatchetSession, CryptoError>)
        ensures
            session matches Ok(session) && session@ == SessionView::start(
                root_key@,
                role,
                dh_keys.secret(),
                peer_ratchet_public_key@,
            ),
    {
        let (alice_to_bob, bob_to_alice) = derive_directional_chains(root_key)?;
        let (send_chain_key, recv_chain_key) = role.chains(alice_to_bob, bob_to_alice);
        let session = RatchetSession {
            role,
            root_key,
            send_chain_key,
            recv_chain_key,
            send_count: 0,
            recv_count: 0,
            skipped_message_keys: BTreeMap::new(),
            consumed_message_numbers: BTreeMap::new(),
            dh_keys,
            peer_ratchet_public_key,
        };
        assert(key_bytes(session.skipped_message_keys@) =~= Map::empty());
        Ok(session)
    }

    /// Encrypts `message` under the next key of the sending chain.
    pub fn encrypt(&mut self, message: &str) -> (sent: Result<RatchetMessage, CryptoError>)
        requires
            old(self)@.can_send(),
            !aead_overruns(utf8(message@).len() as int),
        ensures
            final(self)@ == old(self)@.send_advanced(),
            sent is Err <==> utf8(message@).len() >= 64 * 0xffff_ffff,
            sent matches Err(error) ==> error == CryptoError::Encrypt,
            sent matches Ok(sent) ==> is_sent(old(self)@, sent@, message@),
    {
        let number: u64 = self.send_count;
        let key = self.next_send_message_key()?;
        let ratchet_public_key = self.dh_keys.public_key();
        let nonce = nonce_for(number);
        let aad = ratchet_aad(number, ratchet_public_key);
        match chacha20poly1305_seal(&key, &nonce, aad.as_slice(), message.as_bytes()) {
            Ok(ciphertext) => Ok(RatchetMessage { number, ratchet_public_key, ciphertext }),
            Err(_) => Err(CryptoError::Encrypt),
        }
    }

    /// Decrypts a message of the peer. Up to eight messages that are late may be passed
    /// over; no message is decrypted twice.
    pub fn decrypt(&mut self, message: &RatchetMessage) -> (text: Result<String, CryptoError>)
        requires
            old(self)@.can_receive(message@),
            !aead_overruns(message.ciphertext@.len() - 16),
        ensures
            final(self)@ == old(self)@.receiving(message@).0,
            match text {
                Ok(text) => old(self)@.receiving(message@).1 == Ok::<Seq<char>, CryptoError>(text@),
                Err(error) => old(self)@.receiving(message@).1 == Err::<Seq<char>, CryptoError>(
                    error,
                ),
            },
    {
        if !same_bytes(
            message.ratchet_public_key.as_slice(),
            self.peer_ratchet_public_key.as_slice(),
        ) {
            self.receive_dh_ratchet(message.ratchet_public_key)?;
        }
        let key = self.take_message_key(message.number)?;
        let nonce = nonce_for(message.number);
        let aad = ratchet_aad(message.number, message.ratchet_public_key);
        match chacha20poly1305_open(&key, &nonce, aad.as_slice(), message.ciphertext.as_slice()) {
            Ok(plaintext) => {
                self.consumed_message_numbers.insert(message.number, ());
                match String::from_utf8(plaintext) {
                    Ok(text) => Ok(text),
                    Err(_) => Err(CryptoError::Utf8),
                }
            },
            Err(_) => Err(CryptoError::Decrypt),
        }
    }

    /// Whether the message counter can count `message`.
    pub fn can_receive(&self, message: &RatchetMessage) -> (answer: bool)
        ensures
            answer == self@.can_receive(message@),
    {
        let number: u64 = message.number;
        if number != u64::MAX {
            return true;
        }
        proof {
            lemma_key_bytes(self.skipped_message_keys@);
        }
        let is_met = same_bytes(
            message.ratchet_public_key.as_slice(),
            self.peer_ratchet_public_key.as_slice(),
        );
        if is_met && (self.consumed_message_numbers.contains_key(&number)
            || self.skipped_message_keys.contains_key(&number)) {
            return true;
        }
        let ghost met = self@.meeting(message.ratchet_public_key@);
        let mut next: u64 = if is_met {
            self.recv_count
        } else {
            0
        };
        let mut kept: usize = if is_met {
            self.skipped_message_keys.len()
        } else {
            0
        };
        let ghost mut passing = met;
        while next < number
            invariant
                met == self@.meeting(message.ratchet_public_key@),
                is_met == (message.ratchet_public_key@ == self@.peer),
                number == u64::MAX,
                passing.skipping_to(number) == met.skipping_to(number),
                passing.recv_count == next,
                passing.skipped.dom().finite(),
                passing.skipped.len() == kept,
                forall|n: u64| next <= n ==> (#[trigger] passing.skipped.contains_key(n)
                    == met.skipped.contains_key(n)),
                !is_met ==> met.skipped == Map::<u64, Seq<u8>>::empty(),
                is_met ==> met == self@,
            decreases number - next,
        {
            if kept >= MAX_SKIPPED_MESSAGE_KEYS {
                return true;
            }
            proof {
                lemma_key_bytes(self.skipped_message_keys@);
            }
            let is_kept = is_met && self.skipped_message_keys.contains_key(&next);
            proof {
                assert(passing.skipping_one().skipped.dom() =~= passing.skipped.dom().insert(next));
                passing = passing.skipping_one();
            }
            if !is_kept {
                kept += 1;
            }
            next += 1;
        }
        false
    }

    fn take_message_key(&mut self, number: u64) -> (key: Result<[u8; 32], CryptoError>)
        requires
            number == u64::MAX ==> {
                ||| old(self)@.consumed.contains(number)
                ||| old(self)@.skipped.contains_key(number)
                ||| !old(self)@.skipping_to(number).1
            },
        ensures
            final(self)@ == old(self)@.taking_key(number).0,
            match key {
                Ok(key) => old(self)@.taking_key(number).1 == Ok::<Seq<u8>, CryptoError>(key@),
                Err(error) => old(self)@.taking_key(number).1 == Err::<Seq<u8>, CryptoError>(error),
            },
    {
        proof {
            lemma_key_bytes(self.skipped_message_keys@);
        }
        if self.consumed_message_numbers.contains_key(&number) {
            return Err(CryptoError::Replay);
        }
        if let Some(key) = self.skipped_message_keys.remove(&number) {
            return Ok(key);
        }
        assert(self.skipped_message_keys@ =~= old(self).skipped_message_keys@);
        if number < self.recv_count {
            return Err(CryptoError::Replay);
        }
        let ghost begin = self@;
        while self.recv_count < number
            invariant
                begin == old(self)@,
                !begin.consumed.contains(number),
                !begin.skipped.contains_key(number),
                begin.recv_count <= self.recv_count <= number,
                self@.skipping_to(number) == begin.skipping_to(number),
            decreases number - self.recv_count,
        {
            proof {
                lemma_key_bytes(self.skipped_message_keys@);
            }
            if self.skipped_message_keys.len() >= MAX_SKIPPED_MESSAGE_KEYS {
                return Err(CryptoError::TooManySkippedMessages);
            }
            let ghost before = self@;
            let skipped_key = self.next_recv_message_key()?;
            self.skipped_message_keys.insert(self.recv_count - 1, skipped_key);
            assert(self@ =~= before.skipping_one());
        }
        self.next_recv_message_key()
    }

    /// Takes a fresh ratchet key, which the peer learns from the next message.
    pub fn rotate_sending_ratchet(&mut self) -> (rotated: Result<(), CryptoError>)
        ensures
            rotated is Ok,
            final(self)@ == old(self)@.rotated(final(self)@.dh_private),
            final(self)@.dh_private.len() == 32,
            forall|peer: Seq<u8>| #[trigger]
                x25519_public(peer) == old(self)@.peer && peer.len() == 32 ==> secrets_agree(
                    final(self)@.dh_private,
                    peer,
                ),
    {
        self.dh_keys = X25519KeyPair::generate();
        let dh_output = self.dh_keys.dh_bytes(self.peer_ratchet_public_key);
        self.apply_dh_ratchet(dh_output)
    }

    fn receive_dh_ratchet(&mut self, peer_ratchet_public_key: PublicKeyBytes) -> (step: Result<
        (),
        CryptoError,
    >)
        ensures
            step is Ok,
            final(self)@ == (SessionView { peer: peer_ratchet_public_key@, ..old(self)@ }).ratcheted(
                x25519_shared(old(self)@.dh_private, peer_ratchet_public_key@),
            ),
    {
        let dh_output = self.dh_keys.dh_bytes(peer_ratchet_public_key);
        self.peer_ratchet_public_key = peer_ratchet_public_key;
        self.apply_dh_ratchet(dh_output)
    }

    fn apply_dh_ratchet(&mut self, dh_output: [u8; 32]) -> (step: Result<(), CryptoError>)
        ensures
            step is Ok,
            final(self)@ == old(self)@.ratcheted(dh_output@),
    {
        let (root_key, alice_to_bob, bob_to_alice) = derive_dh_ratchet_state(
            self.root_key,
            dh_output,
        )?;
        let (send_chain_key, recv_chain_key) = self.role.chains(alice_to_bob, bob_to_alice);
        self.root_key = root_key;
        self.send_chain_key = send_chain_key;
        self.recv_chain_key = recv_chain_key;
        self.send_count = 0;
        self.recv_count = 0;
        self.skipped_message_keys.clear();
        self.consumed_message_numbers.clear();
        assert(key_bytes(self.skipped_message_keys@) =~= Map::empty());
        Ok(())
    }

    /// The key of the next message to send.
    pub fn next_send_message_key(&mut self) -> (key: Result<[u8; 32], CryptoError>)
        requires
            old(self)@.can_send(),
        ensures
            final(self)@ == old(self)@.send_advanced(),
            key matches Ok(key) && key@ == message_key(old(self)@.send_chain_key),
    {
        let (next_chain_key, message_key) = advance_chain(self.send_chain_key)?;
        self.send_chain_key = next_chain_key;
        self.send_count = self.send_count + 1;
        Ok(message_key)
    }

    /// The key of the next message to receive.
    pub fn next_recv_message_key(&mut self) -> (key: Result<[u8; 32], CryptoError>)
        requires
            old(self)@.recv_count < u64::MAX,
        ensures
            final(self)@ == old(self)@.recv_advanced(),
            key matches Ok(key) && key@ == message_key(old(self)@.recv_chain_key),
    {
        let (next_chain_key, message_key) = advance_chain(self.recv_chain_key)?;
        self.recv_chain_key = next_chain_key;
        self.recv_count = self.recv_count + 1;
        Ok(message_key)
    }

    /// The session in the form in which it is stored.
    pub fn state(&self) -> (state: RatchetSessionState)
        ensures
            state.session() == self@,
            state.is_sorted(),
    {
        let mut skipped: Vec<(u64, [u8; 32])> = Vec::new();
        let entries = self.skipped_message_keys.iter();
        let ghost listed = entries.remaining();
        for entry in it: entries
            invariant
                it.seq() == listed,
                skipped@.len() == it.index(),
                forall|i: int|
                    0 <= i < skipped@.len() ==> skipped@[i] == (*listed[i].0, *listed[i].1),
        {
            skipped.push((*entry.0, *entry.1));
        }
        proof {
            let keys = listed.map_values(|kv: (&u64, &[u8; 32])| *kv.0);
            assert forall|i: int, j: int| 0 <= i < j < skipped@.len() implies skipped@[i].0
                < skipped@[j].0 by {
                assert(keys[i].cmp_spec(&keys[j]) is Less);
            }
            assert forall|i: int| 0 <= i < skipped@.len() implies
                self.skipped_message_keys@.contains_key(#[trigger] skipped@[i].0)
                && self.skipped_message_keys@[skipped@[i].0] == skipped@[i].1 by {
                assert(self.skipped_message_keys@.contains_key(*listed[i].0));
            }
            assert forall|n: u64| #[trigger] self.skipped_message_keys@.contains_key(n) implies
                exists|i: int| 0 <= i < skipped@.len() && (#[trigger] skipped@[i]).0 == n by {
                assert(listed.contains((&n, &self.skipped_message_keys@[n])));
                let i = choose|i: int|
                    0 <= i < listed.len() && listed[i] == (&n, &self.skipped_message_keys@[n]);
                assert(skipped@[i].0 == n);
            }
            lemma_entries_to_map(skipped@, self.skipped_message_keys@);
        }
        let mut consumed: Vec<u64> = Vec::new();
        let numbers = self.consumed_message_numbers.iter();
        let ghost listed = numbers.remaining();
        for entry in it: numbers
            invariant
                it.seq() == listed,
                consumed@.len() == it.index(),
                forall|i: int| 0 <= i < consumed@.len() ==> consumed@[i] == *listed[i].0,
        {
            consumed.push(*entry.0);
        }
        proof {
            let keys = listed.map_values(|kv: (&u64, &())| *kv.0);
            assert forall|i: int, j: int| 0 <= i < j < consumed@.len() implies consumed@[i]
                < consumed@[j] by {
                assert(keys[i].cmp_spec(&keys[j]) is Less);
            }
            assert forall|n: u64| consumed@.to_set().contains(n) <==> #[trigger]
                self.consumed_message_numbers@.contains_key(n) by {
                if consumed@.contains(n) {
                    let i = choose|i: int| 0 <= i < consumed@.len() && consumed@[i] == n;
                    assert(self.consumed_message_numbers@.contains_key(*listed[i].0));
                }
                if self.consumed_message_numbers@.contains_key(n) {
                    assert(listed.contains((&n, &self.consumed_message_numbers@[n])));
                    let i = choose|i: int|
                        0 <= i < listed.len() && listed[i] == (
                            &n,
                            &self.consumed_message_numbers@[n],
                        );
                    assert(consumed@[i] == n);
                }
            }
            assert(consumed@.to_set() =~= self.consumed_message_numbers@.dom());
        }
        RatchetSessionState {
            role: self.role.state(),
            root_key: self.root_key,
            send_chain_key: self.send_chain_key,
            recv_chain_key: self.recv_chain_key,
            send_count: self.send_count,
            recv_count: self.recv_count,
            skipped_message_keys: skipped,
            consumed_message_numbers: consumed,
            dh_private_key: self.dh_keys.private_key_bytes(),
            peer_ratchet_public_key: self.peer_ratchet_public_key,
        }
    }

    /// The session that a stored state stands for.
    pub fn from_state(state: RatchetSessionState) -> (session: RatchetSession)
        ensures
            session@ == state.session(),
    {
        let mut skipped: BTreeMap<u64, [u8; 32]> = BTreeMap::new();
        let mut i: usize = 0;
        while i < state.skipped_message_keys.len()
            invariant
                i <= state.skipped_message_keys@.len(),
                key_bytes(skipped@) == keys_by_number(state.skipped_message_keys@.take(i as int)),
            decreases state.skipped_message_keys@.len() - i,
        {
            let (number, key) = state.skipped_message_keys[i];
            proof {
                lemma_key_bytes(skipped@);
                assert(state.skipped_message_keys@.take(i + 1).drop_last()
                    =~= state.skipped_message_keys@.take(i as int));
            }
            skipped.insert(number, key);
            i += 1;
        }
        assert(state.skipped_message_keys@.take(i as int) =~= state.skipped_message_keys@);
        let mut consumed: BTreeMap<u64, ()> = BTreeMap::new();
        let mut k: usize = 0;
        while k < state.consumed_message_numbers.len()
            invariant
                k <= state.consumed_message_numbers@.len(),
                consumed@.dom() == state.consumed_message_numbers@.take(k as int).to_set(),
            decreases state.consumed_message_numbers@.len() - k,
        {
            consumed.insert(state.consumed_message_numbers[k], ());
            proof {
                lemma_take_to_set(state.consumed_message_numbers@, k as int);
            }
            assert(consumed@.dom() =~= state.consumed_message_numbers@.take(k + 1).to_set());
            k += 1;
        }
        assert(state.consumed_message_numbers@.take(k as int) =~= state.consumed_message_numbers@);
        RatchetSession {
            role: RatchetRole::from_state(state.role),
            root_key: state.root_key,
            send_chain_key: state.send_chain_key,
            recv_chain_key: state.recv_chain_key,
            send_count: state.send_count,
            recv_count: state.recv_count,
            skipped_message_keys: skipped,
            consumed_message_numbers: consumed,
            dh_keys: X25519KeyPair::from_private_bytes(state.dh_private_key),
            peer_ratchet_public_key: state.peer_ratchet_public_key,
        }
    }
}

} // verus!
