//! What signatures, seals and digests cover: two values that are signed, sealed or hashed
//! alike are the same.

use crate::bytes::{be_byte, be_bytes, hex, hex_digit, utf8};
use crate::chat::{
    contact_of_identity, history_id, history_id_bytes, pending_id, LOCAL_HISTORY_CONTEXT,
    PENDING_MESSAGE_CONTEXT,
};
use crate::delivery::payload_id;
use crate::device::{
    account_id_of, authorization, device_id_of, CertificateView, DeviceRevocation, RevocationView, DEVICE_CERTIFICATE_CONTEXT,
    DEVICE_REVOCATION_CONTEXT,
};
use crate::identity::{
    key_exchange_bytes, prekey_bytes, BundleView, SIGNED_KEY_EXCHANGE_CONTEXT,
    SIGNED_PREKEY_CONTEXT,
};
use crate::invite::{
    code_hash, safety_number_between, INVITE_CODE_CONTEXT, SAFETY_NUMBER_CONTEXT,
};
use crate::mailbox_node::token_of;
use crate::primitives::{ed25519_accepts, hkdf_sha256, sha256};
use crate::ratchet::{
    aad_bytes, alice_chain, bob_chain, message_key, next_chain_key, nonce_bytes, CHAIN_STEP_INFO,
    INITIAL_CHAIN_INFO, LOCAL_AAD,
};
use crate::records::MessageDirection;
use crate::text::upper;
use vstd::prelude::*;
use vstd::utf8::{encode_utf8_decode_utf8, is_ascii_chars_encode_utf8};

verus! {

/// Two numbers with the same bytes are the same number.
pub proof fn law_number_bytes_are_unique(a: u64, b: u64)
    requires
        be_bytes(a) == be_bytes(b),
    ensures
        a == b,
{
    let x = be_bytes(a);
    let y = be_bytes(b);
    assert(x[0] == be_byte(a, 0) && y[0] == be_byte(b, 0));
    assert(x[1] == be_byte(a, 1) && y[1] == be_byte(b, 1));
    assert(x[2] == be_byte(a, 2) && y[2] == be_byte(b, 2));
    assert(x[3] == be_byte(a, 3) && y[3] == be_byte(b, 3));
    assert(x[4] == be_byte(a, 4) && y[4] == be_byte(b, 4));
    assert(x[5] == be_byte(a, 5) && y[5] == be_byte(b, 5));
    assert(x[6] == be_byte(a, 6) && y[6] == be_byte(b, 6));
    assert(x[7] == be_byte(a, 7) && y[7] == be_byte(b, 7));
    lemma_number_of_bytes(a);
    lemma_number_of_bytes(b);
}

proof fn lemma_number_of_bytes(n: u64)
    ensures
        n == be_byte(n, 0) * 0x100_0000_0000_0000 + be_byte(n, 1) * 0x1_0000_0000_0000 + be_byte(
            n,
            2,
        ) * 0x100_0000_0000 + be_byte(n, 3) * 0x1_0000_0000 + be_byte(n, 4) * 0x100_0000 + be_byte(
            n,
            5,
        ) * 0x1_0000 + be_byte(n, 6) * 0x100 + be_byte(n, 7),
{
    let n0 = n as int;
    let n1 = n0 / 0x100;
    let n2 = n0 / 0x1_0000;
    let n3 = n0 / 0x100_0000;
    let n4 = n0 / 0x1_0000_0000;
    let n5 = n0 / 0x100_0000_0000;
    let n6 = n0 / 0x1_0000_0000_0000;
    let n7 = n0 / 0x100_0000_0000_0000;
    assert(n1 == n2 * 0x100 + n1 % 0x100);
    assert(n2 == n3 * 0x100 + n2 % 0x100);
    assert(n3 == n4 * 0x100 + n3 % 0x100);
    assert(n4 == n5 * 0x100 + n4 % 0x100);
    assert(n5 == n6 * 0x100 + n5 % 0x100);
    assert(n6 == n7 * 0x100 + n6 % 0x100);
    assert(n7 == n7 % 0x100);
}

/// A nonce belongs to one message number, so that no two messages of a chain share one.
pub proof fn law_nonce_belongs_to_one_number(a: u64, b: u64)
    requires
        nonce_bytes(a) == nonce_bytes(b),
    ensures
        a == b,
{
    assert(nonce_bytes(a).skip(4) =~= be_bytes(a));
    assert(nonce_bytes(b).skip(4) =~= be_bytes(b));
    law_number_bytes_are_unique(a, b);
}

/// What a message is sealed with covers its number and its ratchet key.
pub proof fn law_seal_covers_number_and_key(
    a: u64,
    first: Seq<u8>,
    b: u64,
    second: Seq<u8>,
)
    requires
        aad_bytes(a, first) == aad_bytes(b, second),
    ensures
        a == b,
        first == second,
{
    let at = utf8(LOCAL_AAD@).len() as int;
    assert(aad_bytes(a, first).subrange(at, at + 8) =~= be_bytes(a));
    assert(aad_bytes(b, second).subrange(at, at + 8) =~= be_bytes(b));
    law_number_bytes_are_unique(a, b);
    assert(aad_bytes(a, first).skip(at + 8) =~= first);
    assert(aad_bytes(b, second).skip(at + 8) =~= second);
}

/// What is derived at one step is used once: the two directions, and the next step and the
/// message, have parts of the derived bytes that do not overlap.
pub proof fn law_derived_keys_do_not_overlap(root: Seq<u8>, chain: Seq<u8>)
    requires
        hkdf_sha256(None, root, utf8(INITIAL_CHAIN_INFO@), 64).len() == 64,
        hkdf_sha256(None, chain, utf8(CHAIN_STEP_INFO@), 64).len() == 64,
    ensures
        alice_chain(root) + bob_chain(root) == hkdf_sha256(
            None,
            root,
            utf8(INITIAL_CHAIN_INFO@),
            64,
        ),
        alice_chain(root).len() == 32,
        next_chain_key(chain) + message_key(chain) == hkdf_sha256(
            None,
            chain,
            utf8(CHAIN_STEP_INFO@),
            64,
        ),
        next_chain_key(chain).len() == 32,
{
    assert(alice_chain(root) + bob_chain(root) =~= hkdf_sha256(
        None,
        root,
        utf8(INITIAL_CHAIN_INFO@),
        64,
    ));
    assert(next_chain_key(chain) + message_key(chain) =~= hkdf_sha256(
        None,
        chain,
        utf8(CHAIN_STEP_INFO@),
        64,
    ));
}

/// What is signed for a key exchange covers both keys.
pub proof fn law_exchange_signature_covers_keys(
    identity: Seq<u8>,
    key: Seq<u8>,
    other_identity: Seq<u8>,
    other_key: Seq<u8>,
)
    requires
        identity.len() == other_identity.len(),
        key_exchange_bytes(identity, key) == key_exchange_bytes(other_identity, other_key),
    ensures
        identity == other_identity,
        key == other_key,
{
    let at = utf8(SIGNED_KEY_EXCHANGE_CONTEXT@).len() as int;
    let end = at + identity.len();
    let a = key_exchange_bytes(identity, key);
    let b = key_exchange_bytes(other_identity, other_key);
    assert(a.subrange(at, end) =~= identity);
    assert(b.subrange(at, end) =~= other_identity);
    assert(a.skip(end) =~= key);
    assert(b.skip(end) =~= other_key);
}

/// What is signed for a prekey covers both keys.
pub proof fn law_prekey_signature_covers_keys(
    identity: Seq<u8>,
    key: Seq<u8>,
    other_identity: Seq<u8>,
    other_key: Seq<u8>,
)
    requires
        identity.len() == other_identity.len(),
        prekey_bytes(identity, key) == prekey_bytes(other_identity, other_key),
    ensures
        identity == other_identity,
        key == other_key,
{
    let at = utf8(SIGNED_PREKEY_CONTEXT@).len() as int;
    let end = at + identity.len();
    let a = prekey_bytes(identity, key);
    let b = prekey_bytes(other_identity, other_key);
    assert(a.subrange(at, end) =~= identity);
    assert(b.subrange(at, end) =~= other_identity);
    assert(a.skip(end) =~= key);
    assert(b.skip(end) =~= other_key);
}

/// A signature on a key exchange is none on a prekey.
pub proof fn law_exchange_is_no_prekey(
    identity: Seq<u8>,
    key: Seq<u8>,
    other_identity: Seq<u8>,
    other_key: Seq<u8>,
)
    ensures
        key_exchange_bytes(identity, key) != prekey_bytes(other_identity, other_key),
{
    reveal_strlit("ciphermesh.phase-2b.signed-x25519");
    reveal_strlit("ciphermesh.phase-2c.signed-prekey");
    is_ascii_chars_encode_utf8(SIGNED_KEY_EXCHANGE_CONTEXT@);
    is_ascii_chars_encode_utf8(SIGNED_PREKEY_CONTEXT@);
    assert(utf8(SIGNED_KEY_EXCHANGE_CONTEXT@)[18] == 'b' as u8);
    assert(utf8(SIGNED_PREKEY_CONTEXT@)[18] == 'c' as u8);
    assert(key_exchange_bytes(identity, key)[18] == 'b' as u8);
    assert(prekey_bytes(other_identity, other_key)[18] == 'c' as u8);
}

/// A bundle is accepted only with a signature, by the identity it names, on that identity
/// and on the very prekey that it carries.
pub proof fn law_accepted_bundle_is_signed(bundle: BundleView)
    requires
        bundle.is_signed(),
    ensures
        exists|signed: Seq<u8>| #[trigger]
            ed25519_accepts(bundle.identity_public_key, signed, bundle.signed_prekey_signature)
                && signed == utf8(SIGNED_PREKEY_CONTEXT@) + bundle.identity_public_key
                + bundle.signed_prekey_public_key,
{
}

/// Where two byte strings end at their first zero byte, what stands before and behind it
/// agrees.
proof fn lemma_split_at_zero(a: Seq<u8>, b: Seq<u8>, x: Seq<u8>, y: Seq<u8>)
    requires
        !a.contains(0u8),
        !b.contains(0u8),
        a + seq![0u8] + x == b + seq![0u8] + y,
    ensures
        a == b,
        x == y,
{
    let left = a + seq![0u8] + x;
    let right = b + seq![0u8] + y;
    if a.len() < b.len() {
        assert(left[a.len() as int] == 0);
        assert(right[a.len() as int] == b[a.len() as int]);
        assert(b.contains(b[a.len() as int]));
    }
    if b.len() < a.len() {
        assert(right[b.len() as int] == 0);
        assert(left[b.len() as int] == a[b.len() as int]);
        assert(a.contains(a[b.len() as int]));
    }
    assert(left.take(a.len() as int) =~= a);
    assert(right.take(b.len() as int) =~= b);
    assert(left.skip(a.len() as int + 1) =~= x);
    assert(right.skip(b.len() as int + 1) =~= y);
}

proof fn lemma_texts_agree(a: Seq<char>, b: Seq<char>)
    requires
        utf8(a) == utf8(b),
    ensures
        a == b,
{
    encode_utf8_decode_utf8(a);
    encode_utf8_decode_utf8(b);
}

/// What an account signs in a certificate covers the account, the device and both of its
/// keys: a signature on one certificate is none on another.
pub proof fn law_certificate_covers_device_and_keys(a: CertificateView, b: CertificateView)
    requires
        !utf8(a.account_id).contains(0u8),
        !utf8(a.device_id).contains(0u8),
        !utf8(b.account_id).contains(0u8),
        !utf8(b.device_id).contains(0u8),
        a.ed25519_public_key.len() == b.ed25519_public_key.len(),
        a.signed_bytes() == b.signed_bytes(),
    ensures
        a.account_id == b.account_id,
        a.device_id == b.device_id,
        a.ed25519_public_key == b.ed25519_public_key,
        a.x25519_public_key == b.x25519_public_key,
{
    let at = utf8(DEVICE_CERTIFICATE_CONTEXT@).len() as int;
    let a_keys = a.ed25519_public_key + a.x25519_public_key;
    let b_keys = b.ed25519_public_key + b.x25519_public_key;
    let a_rest = utf8(a.device_id) + seq![0u8] + a_keys;
    let b_rest = utf8(b.device_id) + seq![0u8] + b_keys;
    assert(a.signed_bytes().skip(at) =~= utf8(a.account_id) + seq![0u8] + a_rest);
    assert(b.signed_bytes().skip(at) =~= utf8(b.account_id) + seq![0u8] + b_rest);
    lemma_split_at_zero(utf8(a.account_id), utf8(b.account_id), a_rest, b_rest);
    lemma_split_at_zero(utf8(a.device_id), utf8(b.device_id), a_keys, b_keys);
    lemma_texts_agree(a.account_id, b.account_id);
    lemma_texts_agree(a.device_id, b.device_id);
    let end = a.ed25519_public_key.len() as int;
    assert(a_keys.take(end) =~= a.ed25519_public_key);
    assert(b_keys.take(end) =~= b.ed25519_public_key);
    assert(a_keys.skip(end) =~= a.x25519_public_key);
    assert(b_keys.skip(end) =~= b.x25519_public_key);
}

/// What an account signs in a revocation covers the account, the device and the counter.
pub proof fn law_revocation_covers_device_and_counter(a: RevocationView, b: RevocationView)
    requires
        !utf8(a.account_id).contains(0u8),
        !utf8(a.device_id).contains(0u8),
        !utf8(b.account_id).contains(0u8),
        !utf8(b.device_id).contains(0u8),
        a.signed_bytes() == b.signed_bytes(),
    ensures
        a.account_id == b.account_id,
        a.device_id == b.device_id,
        a.revocation_counter == b.revocation_counter,
{
    let at = utf8(DEVICE_REVOCATION_CONTEXT@).len() as int;
    let a_rest = utf8(a.device_id) + seq![0u8] + be_bytes(a.revocation_counter);
    let b_rest = utf8(b.device_id) + seq![0u8] + be_bytes(b.revocation_counter);
    assert(a.signed_bytes().skip(at) =~= utf8(a.account_id) + seq![0u8] + a_rest);
    assert(b.signed_bytes().skip(at) =~= utf8(b.account_id) + seq![0u8] + b_rest);
    lemma_split_at_zero(utf8(a.account_id), utf8(b.account_id), a_rest, b_rest);
    lemma_split_at_zero(
        utf8(a.device_id),
        utf8(b.device_id),
        be_bytes(a.revocation_counter),
        be_bytes(b.revocation_counter),
    );
    lemma_texts_agree(a.account_id, b.account_id);
    lemma_texts_agree(a.device_id, b.device_id);
    law_number_bytes_are_unique(a.revocation_counter, b.revocation_counter);
}

/// A signature on a certificate is none on a revocation.
pub proof fn law_certificate_is_no_revocation(
    certificate: CertificateView,
    revocation: RevocationView,
)
    ensures
        certificate.signed_bytes() != revocation.signed_bytes(),
{
    reveal_strlit("ciphermesh.phase-5a.device-certificate");
    reveal_strlit("ciphermesh.phase-5d.device-revocation");
    is_ascii_chars_encode_utf8(DEVICE_CERTIFICATE_CONTEXT@);
    is_ascii_chars_encode_utf8(DEVICE_REVOCATION_CONTEXT@);
    assert(utf8(DEVICE_CERTIFICATE_CONTEXT@)[18] == 'a' as u8);
    assert(utf8(DEVICE_REVOCATION_CONTEXT@)[18] == 'd' as u8);
    assert(certificate.signed_bytes()[18] == 'a' as u8);
    assert(revocation.signed_bytes()[18] == 'd' as u8);
}

/// A device is never authorized by a certificate that the account's key did not sign.
pub proof fn law_unsigned_device_is_not_authorized(
    account_public_key: Seq<u8>,
    certificate: CertificateView,
    revocations: Seq<DeviceRevocation>,
)
    requires
        !ed25519_accepts(account_public_key, certificate.signed_bytes(), certificate.signature),
    ensures
        authorization(account_public_key, certificate, revocations) is None,
{
}

/// The safety number of two users is a digest of both identity keys.
pub proof fn law_safety_number_covers_both_keys(first: Seq<u8>, second: Seq<u8>)
    ensures
        ({
            let number = safety_number_between(first, second);
            let context = utf8(SAFETY_NUMBER_CONTEXT@);
            ||| number == hex(sha256(context + first + second).take(20))
            ||| number == hex(sha256(context + second + first).take(20))
        }),
{
}

/// A code in upper case is registered under a digest of the whole code.
pub proof fn law_code_hash_covers_code(code: Seq<char>)
    requires
        upper(code) == code,
    ensures
        code_hash(code) == hex(sha256(utf8(INVITE_CODE_CONTEXT@) + utf8(code)).take(16)),
{
}

/// Two byte strings with the same hexadecimal text are the same.
pub proof fn law_hex_text_is_unique(a: Seq<u8>, b: Seq<u8>)
    requires
        hex(a) == hex(b),
    ensures
        a == b,
{
    assert(hex(a).len() == 2 * a.len() && hex(b).len() == 2 * b.len());
    assert forall|i: int| 0 <= i < a.len() implies a[i] == b[i] by {
        assert(hex(a)[2 * i] == hex_digit((a[i] / 16) as u8));
        assert(hex(b)[2 * i] == hex_digit((b[i] / 16) as u8));
        assert(hex(a)[2 * i + 1] == hex_digit((a[i] % 16) as u8));
        assert(hex(b)[2 * i + 1] == hex_digit((b[i] % 16) as u8));
        lemma_digits_agree((a[i] / 16) as u8, (b[i] / 16) as u8);
        lemma_digits_agree((a[i] % 16) as u8, (b[i] % 16) as u8);
    }
    assert(a =~= b);
}

proof fn lemma_digits_agree(a: u8, b: u8)
    requires
        a < 16,
        b < 16,
        hex_digit(a) == hex_digit(b),
    ensures
        a == b,
{
}

/// A sent and a received message with the same contents and number have their ids from
/// different bytes.
pub proof fn law_history_id_tells_directions_apart(
    conversation: Seq<char>,
    counter: u64,
    ciphertext: Seq<u8>,
)
    ensures
        history_id_bytes(conversation, MessageDirection::Sent, Some(counter), ciphertext)
            != history_id_bytes(
            conversation,
            MessageDirection::Received,
            Some(counter),
            ciphertext,
        ),
{
    reveal_strlit("sent");
    reveal_strlit("received");
    is_ascii_chars_encode_utf8(MessageDirection::Sent.name());
    is_ascii_chars_encode_utf8(MessageDirection::Received.name());
    assert(history_id_bytes(conversation, MessageDirection::Sent, Some(counter), ciphertext).len()
        + 4 == history_id_bytes(
        conversation,
        MessageDirection::Received,
        Some(counter),
        ciphertext,
    ).len());
}

/// Of two messages of one conversation, in one direction and with numbers, the ids come from
/// different bytes unless number and ciphertext agree.
pub proof fn law_history_id_covers_message(
    conversation: Seq<char>,
    direction: MessageDirection,
    counter: u64,
    ciphertext: Seq<u8>,
    other_counter: u64,
    other_ciphertext: Seq<u8>,
)
    requires
        history_id_bytes(conversation, direction, Some(counter), ciphertext) == history_id_bytes(
            conversation,
            direction,
            Some(other_counter),
            other_ciphertext,
        ),
    ensures
        counter == other_counter,
        ciphertext == other_ciphertext,
{
    let a = history_id_bytes(conversation, direction, Some(counter), ciphertext);
    let b = history_id_bytes(conversation, direction, Some(other_counter), other_ciphertext);
    let at = (utf8(LOCAL_HISTORY_CONTEXT@).len() + utf8(conversation).len() + utf8(
        direction.name(),
    ).len()) as int;
    assert(a.subrange(at, at + 8) =~= be_bytes(counter));
    assert(b.subrange(at, at + 8) =~= be_bytes(other_counter));
    law_number_bytes_are_unique(counter, other_counter);
    assert(a.skip(at + 8) =~= ciphertext);
    assert(b.skip(at + 8) =~= other_ciphertext);
}

/// The names of accounts, devices, contacts and mailbox recipients are digests of their
/// whole public keys.
pub proof fn law_names_are_digests_of_keys(key: Seq<u8>)
    ensures
        account_id_of(key) == "acct-"@ + hex(sha256(key).subrange(0, 16)),
        device_id_of(key) == "dev-"@ + hex(sha256(key).subrange(0, 16)),
        contact_of_identity(key) == "contact-"@ + hex(sha256(key).take(8)),
        token_of(key) == hex(sha256(key).take(16)),
{
}

/// The id of a payload is a digest of its time and of all its bytes, and two payloads, or two
/// times, are told apart by what is hashed.
pub proof fn law_payload_id_covers_time_and_payload(
    payload: Seq<u8>,
    now: u64,
    other: Seq<u8>,
    later: u64,
)
    ensures
        payload_id(payload, now) == hex(sha256(be_bytes(now) + payload).take(16)),
        be_bytes(now) + payload == be_bytes(later) + other ==> now == later && payload == other,
{
    if be_bytes(now) + payload == be_bytes(later) + other {
        let a = be_bytes(now) + payload;
        let b = be_bytes(later) + other;
        assert(a.take(8) =~= be_bytes(now));
        assert(b.take(8) =~= be_bytes(later));
        law_number_bytes_are_unique(now, later);
        assert(a.skip(8) =~= payload);
        assert(b.skip(8) =~= other);
    }
}

/// The id of a message of the history is a digest of where it stands and what it carries.
pub proof fn law_history_id_is_a_digest(
    conversation: Seq<char>,
    direction: MessageDirection,
    counter: Option<u64>,
    ciphertext: Seq<u8>,
)
    ensures
        history_id(conversation, direction, counter, ciphertext) == hex(
            sha256(history_id_bytes(conversation, direction, counter, ciphertext)).take(16),
        ),
{
}

/// The id of a message that waits is a digest of its peer, its time, its text and all of the
/// random bytes.
pub proof fn law_pending_id_covers_everything(
    peer: Seq<char>,
    now: u64,
    text: Seq<char>,
    random: Seq<u8>,
)
    ensures
        pending_id(peer, now, text, random) == hex(
            sha256(
                utf8(PENDING_MESSAGE_CONTEXT@) + utf8(peer) + be_bytes(now) + utf8(text) + random,
            ).take(16),
        ),
{
}

} // verus!
