//! Invites that two clients share through one storage: one leaves where it can be reached,
//! the other finds it by the code, once and within five minutes.

use crate::bytes::{copy_bytes, copy_text, hex, hex_encode, utf8};
use crate::error::CryptoError;
use crate::frames::{bob_exchange_from_payload, PayloadError};
use crate::history::MAX_STORED;
use crate::invite::{
    code_hash, code_letters, invite_code_hash, is_code, law_hex_is_read_back, normalize_invite_code,
    safety_number, safety_number_between, InviteCodeError, INVITE_CODE_LEN, INVITE_TTL_SECS,
};
use crate::identity::SignedKeyExchange;
use crate::party::{is_exchange_of, Alice, AliceView, Bob, BobView};
use crate::primitives::{ed25519_public, x25519_public};
use crate::ratchet::aead_key;
use crate::records::{ContactRecord, ContactRow, InviteRecord, InviteRow};
use crate::session::{RatchetRole, SessionView};
use crate::states::{
    is_alice_form, is_bob_form, is_session_form, store_alice, store_bob, store_ratchet,
};
use crate::storage::{Storage, StorageView};
use crate::text::joined;
use crate::wire::{encode, is_form_of, Wire};
use vstd::prelude::*;

verus! {

/// Why an invite cannot be joined.
#[derive(Debug, Clone, Copy, PartialEq, Eq, Structural)]
pub enum JoinError {
    Code(InviteCodeError),
    /// The code is unknown, was used or has expired.
    InvalidInvite,
}

impl JoinError {
    pub open spec fn name(self) -> Seq<char> {
        match self {
            JoinError::Code(error) => error.name(),
            JoinError::InvalidInvite => "invalid invite"@,
        }
    }

    pub fn message(&self) -> (text: &'static str)
        ensures
            text@ == self.name(),
    {
        match self {
            JoinError::Code(error) => error.message(),
            JoinError::InvalidInvite => "invalid invite",
        }
    }
}

/// The record of a fresh invite.
pub open spec fn fresh_invite(code: Seq<char>, payload: Seq<char>, now: u64) -> InviteRow {
    InviteRow {
        code_hash: code_hash(code),
        rendezvous_payload: payload,
        expires_at_unix_secs: (now + INVITE_TTL_SECS) as u64,
        consumed_at_unix_secs: None,
        created_at_unix_secs: now,
    }
}

/// Leaves an invite with what the joining side needs.
pub fn create_invite(storage: &mut Storage, code: &str, payload: &str, now: u64)
    requires
        old(storage).wf(),
        now + INVITE_TTL_SECS <= u64::MAX,
    ensures
        final(storage).wf(),
        final(storage)@ == old(storage)@.with_invite(fresh_invite(code@, payload@, now)),
{
    storage.save_invite_record(
        &InviteRecord {
            code_hash: invite_code_hash(code),
            rendezvous_payload: copy_text(payload),
            expires_at_unix_secs: now + INVITE_TTL_SECS,
            consumed_at_unix_secs: None,
            created_at_unix_secs: now,
        },
    );
}

/// Finds an invite by the code as a user typed it, and uses it up. Answers with what the
/// issuing side left.
pub fn join_invite(storage: &mut Storage, typed: &str, now: u64) -> (payload: Result<
    String,
    JoinError,
>)
    requires
        old(storage).wf(),
    ensures
        final(storage).wf(),
        match payload {
            Ok(payload) => {
                let hash = code_hash(code_letters(typed@));
                &&& is_code(code_letters(typed@))
                &&& old(storage)@.has_open_invite(hash, now)
                &&& payload@ == old(storage)@.invites[hash].rendezvous_payload
                &&& final(storage)@ == old(storage)@.with_invite_consumed(hash, now)
            },
            Err(JoinError::InvalidInvite) => {
                &&& is_code(code_letters(typed@))
                &&& !old(storage)@.has_open_invite(code_hash(code_letters(typed@)), now)
                &&& final(storage)@ == old(storage)@
            },
            Err(JoinError::Code(error)) => {
                &&& !is_code(code_letters(typed@))
                &&& error == if utf8(code_letters(typed@)).len() == INVITE_CODE_LEN {
                    InviteCodeError::UnsupportedCharacters
                } else {
                    InviteCodeError::WrongLength
                }
                &&& final(storage)@ == old(storage)@
            },
        },
{
    let code = match normalize_invite_code(typed) {
        Ok(code) => code,
        Err(error) => {
            return Err(JoinError::Code(error));
        },
    };
    match storage.consume_invite_record(invite_code_hash(code.as_str()).as_str(), now) {
        Some(invite) => Ok(invite.rendezvous_payload),
        None => Err(JoinError::InvalidInvite),
    }
}

/// An invite that was left is found by its code within five minutes, however the code is
/// spelt, and is gone after that.
pub proof fn law_invite_is_joined_once(
    storage: StorageView,
    code: Seq<char>,
    payload: Seq<char>,
    now: u64,
    typed: Seq<char>,
    joined: u64,
    later: u64,
)
    requires
        code_letters(typed) == code,
        now <= joined < now + INVITE_TTL_SECS,
        now + INVITE_TTL_SECS <= MAX_STORED,
    ensures
        ({
            let left = storage.with_invite(fresh_invite(code, payload, now));
            let hash = code_hash(code_letters(typed));
            let used = left.with_invite_consumed(hash, joined);
            &&& left.has_open_invite(hash, joined)
            &&& left.invites[hash].rendezvous_payload == payload
            &&& !used.has_open_invite(hash, later)
        }),
{
}

/// An invite that was left is not found once its five minutes are over.
pub proof fn law_expired_invite_is_not_joined(
    storage: StorageView,
    code: Seq<char>,
    payload: Seq<char>,
    now: u64,
    later: u64,
)
    requires
        now + INVITE_TTL_SECS <= later <= MAX_STORED,
    ensures
        !storage.with_invite(fresh_invite(code, payload, now)).has_open_invite(
            code_hash(code),
            later,
        ),
{
}

/// Why the invite scene stops.
#[derive(Debug, Clone, PartialEq, Eq, Structural)]
pub enum InviteSceneError {
    Join(JoinError),
    Payload(PayloadError),
    Crypto(CryptoError),
}

/// What the invite scene shows.
pub struct InviteScene {
    pub safety_number: String,
    pub conversation_id: String,
    pub used_again: bool,
}

/// A storage after Alice has joined an invite that Bob left with `payload`: the invite is
/// used up, and both, Alice's session and the contact are kept.
pub open spec fn with_introduction(
    storage: StorageView,
    payload: Seq<u8>,
    alice_state: Seq<u8>,
    bob_state: Seq<u8>,
    session_state: Seq<u8>,
    identity: Seq<u8>,
    code: Seq<char>,
    now: u64,
) -> StorageView {
    storage.with_invite(fresh_invite(code, hex(payload), now)).with_invite_consumed(
        code_hash(code),
        (now + 1) as u64,
    ).with_local_identity(
        "alice-invite-demo"@,
        "alice"@,
        alice_state,
        now,
    ).with_local_identity("bob-invite-demo"@, "bob"@, bob_state, now).with_session(
        "invite-"@ + code_hash(code),
        "bob-contact"@,
        "alice"@,
        session_state,
        now,
    ).with_contact(
        ContactRow {
            contact_id: "bob-contact"@,
            display_name: "Bob"@,
            identity_public_key: identity,
            discovery_hint: "resolved through short-lived invite rendezvous"@,
            saved_at_unix_secs: (now + 1) as u64,
        },
    )
}

/// Whether `after` is `before` with an invite that Bob left and Alice used, and with both
/// as they are kept.
pub open spec fn were_introduced(
    before: StorageView,
    after: StorageView,
    alice: AliceView,
    bob: BobView,
    code: Seq<char>,
    now: u64,
) -> bool {
    exists|
        payload: Seq<u8>,
        exchange: SignedKeyExchange,
        alice_state: Seq<u8>,
        bob_state: Seq<u8>,
        session_state: Seq<u8>,
    |
        {
            &&& is_form_of::<SignedKeyExchange>(payload, exchange@)
            &&& #[trigger] is_exchange_of(
                exchange,
                bob.identity_secret_key,
                bob.x25519_private_key,
            )
            &&& is_alice_form(alice_state, alice)
            &&& is_bob_form(bob_state, bob)
            &&& is_session_form(session_state, alice.session)
            &&& after == #[trigger] with_introduction(
                before,
                payload,
                alice_state,
                bob_state,
                session_state,
                ed25519_public(bob.identity_secret_key),
                code,
                now,
            )
        }
}

/// Bob leaves an invite with a key exchange; Alice joins by the code. Both derive a
/// session, the storage keeps them and the contact, and the code cannot be used again.
pub fn invite_scene(storage: &mut Storage, alice: &mut Alice, bob: &mut Bob, code: &str, now: u64) -> (
    shown: Result<InviteScene, InviteSceneError>)
    requires
        old(storage).wf(),
        is_code(code@),
        code_letters(code@) == code@,
        now + INVITE_TTL_SECS <= MAX_STORED,
    ensures
        final(storage).wf(),
        shown matches Ok(shown) && {
            &&& shown.safety_number@ == safety_number_between(
                ed25519_public(old(alice)@.identity_secret_key),
                ed25519_public(old(bob)@.identity_secret_key),
            )
            &&& shown.conversation_id@ == "invite-"@ + code_hash(code@)
            &&& !shown.used_again
        },
        final(alice)@ == (AliceView {
            session: Some(
                SessionView::start(
                    aead_key(
                        old(alice)@.x25519_private_key,
                        x25519_public(old(bob)@.x25519_private_key),
                    ),
                    RatchetRole::Alice,
                    old(alice)@.x25519_private_key,
                    x25519_public(old(bob)@.x25519_private_key),
                ),
            ),
            ..old(alice)@
        }),
        final(bob)@ == (BobView {
            session: Some(
                SessionView::start(
                    aead_key(
                        old(bob)@.x25519_private_key,
                        x25519_public(old(alice)@.x25519_private_key),
                    ),
                    RatchetRole::Bob,
                    old(bob)@.x25519_private_key,
                    x25519_public(old(alice)@.x25519_private_key),
                ),
            ),
            ..old(bob)@
        }),
        were_introduced(
            old(storage)@,
            final(storage)@,
            final(alice)@,
            final(bob)@,
            code@,
            now,
        ),
        !final(storage)@.has_open_invite(code_hash(code@), (now + 2) as u64),
{
    let alice_exchange = alice.signed_key_exchange();
    let bob_exchange = bob.signed_key_exchange();
    let payload = encode(&bob_exchange);
    let payload_text = hex_encode(payload.as_slice());
    create_invite(storage, code, payload_text.as_str(), now);
    let found = match join_invite(storage, code, now + 1) {
        Ok(found) => found,
        Err(error) => {
            return Err(InviteSceneError::Join(error));
        },
    };
    proof {
        law_hex_is_read_back(payload@);
    }
    let resolved = match bob_exchange_from_payload(found.as_str()) {
        Ok(exchange) => exchange,
        Err(error) => {
            return Err(InviteSceneError::Payload(error));
        },
    };
    assert(resolved@ == bob_exchange@);
    assert(resolved.is_signed());
    if let Err(error) = alice.derive_session_key(&resolved) {
        return Err(InviteSceneError::Crypto(error));
    }
    if let Err(error) = bob.derive_session_key(&alice_exchange) {
        return Err(InviteSceneError::Crypto(error));
    }
    let number = safety_number(&alice_exchange.identity_public_key, &resolved.identity_public_key);
    let conversation_id = joined("invite-", invite_code_hash(code).as_str());
    let alice_state = store_alice(alice);
    let bob_state = store_bob(bob);
    storage.save_local_identity_at("alice-invite-demo", "alice", alice_state.as_slice(), now);
    storage.save_local_identity_at("bob-invite-demo", "bob", bob_state.as_slice(), now);
    let session_state = match alice.session_state() {
        Some(session) => store_ratchet(&session),
        None => Vec::new(),
    };
    storage.save_session_at(
        conversation_id.as_str(),
        "bob-contact",
        "alice",
        session_state.as_slice(),
        now,
    );
    storage.save_contact(
        &ContactRecord {
            contact_id: copy_text("bob-contact"),
            display_name: copy_text("Bob"),
            identity_public_key: copy_bytes(resolved.identity_public_key.as_slice()),
            discovery_hint: copy_text("resolved through short-lived invite rendezvous"),
            saved_at_unix_secs: now + 1,
        },
    );
    let ghost introduced = storage@;
    let again = storage.consume_invite_record(invite_code_hash(code).as_str(), now + 2);
    proof {
        assert(introduced == with_introduction(
            old(storage)@,
            payload@,
            alice_state@,
            bob_state@,
            session_state@,
            ed25519_public(bob@.identity_secret_key),
            code@,
            now,
        ));
        assert(storage@ == introduced);
        assert(is_exchange_of(
            bob_exchange,
            bob@.identity_secret_key,
            bob@.x25519_private_key,
        ));
        assert(were_introduced(old(storage)@, storage@, alice@, bob@, code@, now));
    }
    Ok(
        InviteScene {
            safety_number: number,
            conversation_id,
            used_again: again.is_some(),
        },
    )
}

} // verus!
