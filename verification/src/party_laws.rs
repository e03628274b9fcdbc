//! What holds of two parties that set up a conversation.

use crate::error::CryptoError;
use crate::identity::BundleView;
use crate::party::{
    is_bundle_of, is_same_alice, is_same_bob, is_same_stored, is_sorted_state, opened_with,
    stored_session, AliceState, AliceView, BobState, BobView, InitialView,
};
use crate::primitives::x25519_public;
use crate::ratchet::{aead_key, alice_chain, bob_chain, secrets_agree};
use crate::session::{is_sent, MessageView, RatchetRole, RatchetSessionState, SessionView};
use crate::session_laws::{
    in_step, law_messages_in_order_are_read, law_session_has_one_state,
    law_sessions_start_paired, linked, paired,
};
use vstd::prelude::*;

verus! {

/// Two private keys whose secrets agree lead to one session key on both sides.
pub proof fn law_key_exchange_gives_one_key(alice: Seq<u8>, bob: Seq<u8>)
    requires
        secrets_agree(alice, bob),
    ensures
        aead_key(alice, x25519_public(bob)) == aead_key(bob, x25519_public(alice)),
{
}

/// The sessions that two sides start from each other's public keys are the two sides of
/// one conversation: each can read what the other sends.
pub proof fn law_exchanged_sessions_are_paired(alice: Seq<u8>, bob: Seq<u8>)
    requires
        secrets_agree(alice, bob),
    ensures
        ({
            let a = SessionView::start(
                aead_key(alice, x25519_public(bob)),
                RatchetRole::Alice,
                alice,
                x25519_public(bob),
            );
            let b = SessionView::start(
                aead_key(bob, x25519_public(alice)),
                RatchetRole::Bob,
                bob,
                x25519_public(alice),
            );
            &&& paired(a, b)
            &&& linked(a, b, alice_chain(a.root_key))
            &&& linked(b, a, bob_chain(a.root_key))
        }),
{
    law_key_exchange_gives_one_key(alice, bob);
    law_sessions_start_paired(aead_key(alice, x25519_public(bob)), alice, bob);
}

/// The first message that Alice writes with Bob's bundle is read by Bob, uses up the
/// one-time prekey and leaves both with paired sessions, in which each has read everything
/// that the other has sent.
pub proof fn law_initial_message_is_read(
    bundle: BundleView,
    bob: BobView,
    fresh: Seq<u8>,
    initial: InitialView,
    text: Seq<char>,
)
    requires
        is_bundle_of(bundle, bob),
        secrets_agree(fresh, bob.signed_prekey_private_key),
        secrets_agree(fresh, (bob.one_time_prekey->0).1),
        is_sent(opened_with(bundle, fresh), initial.message, text),
        initial.alice_initial_public_key == x25519_public(fresh),
        initial.one_time_prekey_id == bundle.one_time_prekey_id,
    ensures
        bob.receiving_initial(initial).1 == Ok::<Seq<char>, CryptoError>(text),
        bob.receiving_initial(initial).0.one_time_prekey is None,
        bob.receiving_initial(initial).0.session matches Some(session) && paired(
            opened_with(bundle, fresh).send_advanced(),
            session,
        ) && in_step(
            opened_with(bundle, fresh).send_advanced(),
            session,
            alice_chain(session.root_key),
        ) && in_step(
            session,
            opened_with(bundle, fresh).send_advanced(),
            bob_chain(session.root_key),
        ),
{
    let a = opened_with(bundle, fresh);
    let b = bob.opened_by(x25519_public(fresh), (bob.one_time_prekey->0).1);
    law_sessions_start_paired(a.root_key, fresh, bob.signed_prekey_private_key);
    law_messages_in_order_are_read(a, b, alice_chain(a.root_key), initial.message, text);
}

/// A one-time prekey serves one message: after an initial message that fits it, whatever
/// became of that message, every initial message is refused and changes nothing.
pub proof fn law_one_time_prekey_is_used_once(
    bob: BobView,
    first: InitialView,
    second: InitialView,
)
    requires
        bob.has_prekey_for(first),
    ensures
        bob.receiving_initial(first).0.one_time_prekey is None,
        bob.receiving_initial(first).0.receiving_initial(second) == (
            bob.receiving_initial(first).0,
            Err::<Seq<char>, CryptoError>(CryptoError::PreKeyUnavailable),
        ),
{
}

/// A Bob that is restored from an exported state is the Bob that was kept: the same state is
/// exported again, every message is read as the kept one would read it, with the same Bob
/// after it, and what is said next is what the kept one would say. No new exchange of keys is needed, and
/// what was read before stays refused.
pub proof fn law_restored_bob_goes_on(
    kept: BobView,
    exported: BobState,
    restored: BobView,
    again: BobState,
    message: MessageView,
    text: Seq<char>,
)
    requires
        exported.party() == kept,
        is_sorted_state(exported.session),
        restored == exported.party(),
        again.party() == restored,
        is_sorted_state(again.session),
    ensures
        is_same_bob(again, exported),
        restored.reading(message) == kept.reading(message),
        restored.says(message, text) == kept.says(message, text),
        kept.session matches Some(session) && session.peer == message.ratchet_public_key
            && session.consumed.contains(message.number) ==> restored.reading(message) == (
            kept,
            Err::<Seq<char>, CryptoError>(CryptoError::Replay),
        ),
{
    lemma_stored_session_has_one_form(again.session, exported.session);
    assert(again.identity_secret_key@ == exported.identity_secret_key@);
    assert(again.identity_secret_key =~= exported.identity_secret_key);
    assert(again.x25519_private_key@ == exported.x25519_private_key@);
    assert(again.x25519_private_key =~= exported.x25519_private_key);
    assert(again.signed_prekey_private_key@ == exported.signed_prekey_private_key@);
    assert(again.signed_prekey_private_key =~= exported.signed_prekey_private_key);
    assert(again.party().one_time_prekey == exported.party().one_time_prekey);
    if again.one_time_prekey is Some {
        assert((again.one_time_prekey->0).private_key@ == (
        exported.one_time_prekey->0).private_key@);
        assert((again.one_time_prekey->0).private_key =~= (
        exported.one_time_prekey->0).private_key);
    }
}

/// An Alice that is restored from an exported state is the Alice that was kept: the same
/// state is exported again, every message is read as the kept one would read it, with the
/// same Alice after it, and what is said next is what the kept one would say.
pub proof fn law_restored_alice_goes_on(
    kept: AliceView,
    exported: AliceState,
    restored: AliceView,
    again: AliceState,
    message: MessageView,
    text: Seq<char>,
)
    requires
        exported.party() == kept,
        is_sorted_state(exported.session),
        restored == exported.party(),
        again.party() == restored,
        is_sorted_state(again.session),
    ensures
        is_same_alice(again, exported),
        restored.reading(message) == kept.reading(message),
        restored.says(message, text) == kept.says(message, text),
        kept.session matches Some(session) && session.peer == message.ratchet_public_key
            && session.consumed.contains(message.number) ==> restored.reading(message) == (
            kept,
            Err::<Seq<char>, CryptoError>(CryptoError::Replay),
        ),
{
    lemma_stored_session_has_one_form(again.session, exported.session);
    assert(again.identity_secret_key@ == exported.identity_secret_key@);
    assert(again.identity_secret_key =~= exported.identity_secret_key);
    assert(again.x25519_private_key@ == exported.x25519_private_key@);
    assert(again.x25519_private_key =~= exported.x25519_private_key);
}

pub proof fn lemma_stored_session_has_one_form(
    left: Option<RatchetSessionState>,
    right: Option<RatchetSessionState>,
)
    requires
        is_sorted_state(left),
        is_sorted_state(right),
        stored_session(left) == stored_session(right),
    ensures
        is_same_stored(left, right),
{
    if left is Some {
        law_session_has_one_state(left->0, right->0);
    }
}

} // verus!
