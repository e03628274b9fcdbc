//! What holds of parties, accounts and their devices: whom they trust, write to and sync
//! with.

use crate::bytes::utf8;
use crate::chat::shown_name;
use crate::delivery::{decoded_all, DeliveryError};
use crate::device::{
    account_id_of, authorization, device_id_of, law_revoked_device_is_not_authorized,
    law_unrevoked_device_is_authorized, AccountView, CertificateView, DeviceCertificate,
    DeviceDeliveryEnvelope, DeviceRevocation, DeviceSessionView, DeviceView,
};
use crate::error::CryptoError;
use crate::fanout::{are_written_to, outbound_session, with_deliveries, with_own_device};
use crate::frames::{
    chat_bundle_of, chat_initial_of, ChatBundleView, ChatInitialMessage, ChatInitialView,
    ChatPreKeyBundle,
};
use crate::identity::BundleView;
use crate::party::{opened_with, AliceView, BobView, InitialView};
use crate::primitives::{ed25519_accepts, hkdf_sha256, x25519_public, x25519_shared};
use crate::ratchet::{
    aead_key, dh_ratchet_output, prekey_aead_key, DH_RATCHET_INFO, HKDF_INFO, PREKEY_HKDF_INFO,
};
use crate::records::{OutboxRow, OutboxStatus};
use crate::scenes::{first_for, is_expected, is_pending_read, PendingRead};
use crate::session::{MessageView, RatchetRole, SessionView};
use crate::sorted::{keys_where, map_where};
use crate::states::DeliveryView;
use crate::storage::StorageView;
use crate::sync::{may_sync, refuses_as_revoked};
use crate::wire::{decoding, Wire};
use vstd::prelude::*;

verus! {

/// A revocation that names an account and a device ends the authorization of that device.
pub proof fn law_revocation_names_its_device(
    account_public_key: Seq<u8>,
    certificate: CertificateView,
    revocations: Seq<DeviceRevocation>,
    i: int,
)
    requires
        0 <= i < revocations.len(),
        revocations[i]@.account_id == certificate.account_id,
        revocations[i]@.device_id == certificate.device_id,
    ensures
        authorization(account_public_key, certificate, revocations) != Some(true),
{
    law_revoked_device_is_not_authorized(account_public_key, certificate, revocations, i);
}

/// Revocations of other devices, and of devices of other accounts, leave a device
/// authorized.
pub proof fn law_other_revocations_do_not_count(
    account_public_key: Seq<u8>,
    certificate: CertificateView,
    revocations: Seq<DeviceRevocation>,
)
    requires
        certificate.account_id == account_id_of(account_public_key),
        ed25519_accepts(account_public_key, certificate.signed_bytes(), certificate.signature),
        forall|k: int|
            0 <= k < revocations.len() ==> (#[trigger] revocations[k])@.account_id
                != certificate.account_id || revocations[k]@.device_id != certificate.device_id,
    ensures
        authorization(account_public_key, certificate, revocations) == Some(true),
{
    law_unrevoked_device_is_authorized(account_public_key, certificate, revocations);
}

/// A certificate of another account is not accepted, whoever signed it.
pub proof fn law_certificate_of_another_account_is_refused(
    account_public_key: Seq<u8>,
    certificate: CertificateView,
    revocations: Seq<DeviceRevocation>,
)
    requires
        certificate.account_id != account_id_of(account_public_key),
    ensures
        !certificate.is_issued_by(account_public_key),
        authorization(account_public_key, certificate, revocations) is None,
{
}

/// Accounts and devices are told apart by their ids.
pub proof fn law_account_is_no_device(account: Seq<u8>, device: Seq<u8>)
    ensures
        account_id_of(account) != device_id_of(device),
{
    reveal_strlit("acct-");
    reveal_strlit("dev-");
    assert(account_id_of(account)[0] == 'a');
    assert(device_id_of(device)[0] == 'd');
}

/// Only two different devices of one account sync, neither of them revoked.
pub proof fn law_only_siblings_sync(
    account: Seq<u8>,
    left: DeviceCertificate,
    right: DeviceCertificate,
    revocations: Seq<DeviceRevocation>,
)
    requires
        may_sync(account, left, right, revocations),
    ensures
        left@.account_id == account_id_of(account),
        right@.account_id == account_id_of(account),
        left@.device_id != right@.device_id,
        ed25519_accepts(account, left@.signed_bytes(), left@.signature),
        ed25519_accepts(account, right@.signed_bytes(), right@.signature),
        forall|k: int|
            0 <= k < revocations.len() ==> !((#[trigger] revocations[k])@.account_id
                == left@.account_id && (revocations[k]@.device_id == left@.device_id
                || revocations[k]@.device_id == right@.device_id)),
        !refuses_as_revoked(account, left, right, revocations),
{
    assert forall|k: int| 0 <= k < revocations.len() implies !((#[trigger] revocations[k])@.account_id
        == left@.account_id && (revocations[k]@.device_id == left@.device_id
        || revocations[k]@.device_id == right@.device_id)) by {
        if revocations[k]@.account_id == left@.account_id {
            if revocations[k]@.device_id == left@.device_id {
                law_revocation_names_its_device(account, left@, revocations, k);
            }
            if revocations[k]@.device_id == right@.device_id {
                law_revocation_names_its_device(account, right@, revocations, k);
            }
        }
    }
}

/// Two devices of one account that no revocation names sync.
pub proof fn law_unrevoked_siblings_sync(
    account: Seq<u8>,
    left: DeviceCertificate,
    right: DeviceCertificate,
    revocations: Seq<DeviceRevocation>,
)
    requires
        left@.is_issued_by(account),
        right@.is_issued_by(account),
        left@.device_id != right@.device_id,
        forall|k: int|
            0 <= k < revocations.len() ==> (#[trigger] revocations[k])@.device_id
                != left@.device_id && revocations[k]@.device_id != right@.device_id,
    ensures
        may_sync(account, left, right, revocations),
{
    law_other_revocations_do_not_count(account, left@, revocations);
    law_other_revocations_do_not_count(account, right@, revocations);
}

/// An envelope for another device, or from another one than the session is with, is not
/// expected on a session.
pub proof fn law_session_expects_its_own_envelopes(
    session: DeviceSessionView,
    delivery: DeliveryView,
)
    ensures
        is_expected(session, delivery) <==> delivery.recipient_device_id == session.local_device_id
            && delivery.sender_device_id == session.remote_device_id,
{
}

/// A delivery that is not on its way between the two devices of a session is refused, and
/// changes neither storage nor session.
pub proof fn law_foreign_delivery_is_refused(
    before: StorageView,
    after: StorageView,
    receiver: DeviceSessionView,
    receiver_after: DeviceSessionView,
    item: OutboxRow,
    delivery: DeliveryView,
    read: PendingRead,
    now: u64,
)
    requires
        is_pending_read(before, after, receiver, receiver_after, Some(item), read, now),
        decoding::<DeviceDeliveryEnvelope>(item.payload) == Some(delivery),
        delivery.recipient_device_id != receiver.local_device_id || delivery.sender_device_id
            != receiver.remote_device_id,
    ensures
        read == PendingRead::Refused(DeliveryError::Crypto(CryptoError::Decrypt)),
        after == before,
        receiver_after == receiver,
{
}

/// A delivery that a device has read is confirmed, and no other; one that it could not read
/// keeps waiting.
pub proof fn law_read_delivery_is_confirmed(
    before: StorageView,
    after: StorageView,
    receiver: DeviceSessionView,
    receiver_after: DeviceSessionView,
    item: OutboxRow,
    read: PendingRead,
    now: u64,
    other: Seq<char>,
)
    requires
        is_pending_read(before, after, receiver, receiver_after, Some(item), read, now),
        before.outbox.contains_key(item.message_id),
    ensures
        after == (StorageView { outbox: after.outbox, ..before }),
        read is Read ==> after.outbox[item.message_id].status == OutboxStatus::Delivered,
        !(read is Read) ==> after == before,
        other != item.message_id && before.outbox.contains_key(other)
            ==> after.outbox.contains_key(other) && after.outbox[other] == before.outbox[other],
        receiver_after.local_device_id == receiver.local_device_id,
        receiver_after.remote_device_id == receiver.remote_device_id,
{
}

/// A device writes to each device of a list on a session of its own, from its own id to the
/// id of that device.
pub proof fn law_every_listed_device_is_written_to(
    envelopes: Seq<DeliveryView>,
    device: DeviceView,
    certificates: Seq<CertificateView>,
    message: Seq<char>,
    text: Seq<char>,
    i: int,
)
    requires
        are_written_to(envelopes, device, certificates, message, text),
        0 <= i < certificates.len(),
    ensures
        envelopes.len() == certificates.len(),
        envelopes[i].logical_message_id == message,
        envelopes[i].sender_device_id == device.device_id,
        envelopes[i].recipient_device_id == certificates[i].device_id,
        envelopes[i].message.number == 0,
        envelopes[i].message.ratchet_public_key == x25519_public(device.x25519_private_key),
{
    assert(crate::fanout::is_delivery_on(
        envelopes[i],
        outbound_session(device, certificates[i]),
        message,
        text,
    ));
}

/// An account and one of its devices are stored under their ids, with their keys and the
/// certificate; those of others stay.
pub proof fn law_own_device_is_on_record(
    storage: StorageView,
    account: AccountView,
    device: DeviceView,
    certificate: Seq<u8>,
    first: u64,
    second: u64,
    third: u64,
    other: Seq<char>,
    pair: (Seq<char>, Seq<char>),
)
    ensures
        ({
            let after = with_own_device(
                storage,
                account,
                device,
                certificate,
                first,
                second,
                third,
            );
            let key = (account.account_id, device.device_id);
            &&& after == StorageView {
                accounts: after.accounts,
                devices: after.devices,
                certificates: after.certificates,
                ..storage
            }
            &&& after.accounts[account.account_id].account_public_key == account.public_key()
            &&& after.accounts[account.account_id].account_secret_key == Some(account.secret_key)
            &&& after.devices[device.device_id].account_id == device.account_id
            &&& after.devices[device.device_id].device_ed25519_secret_key == device.secret_key
            &&& after.devices[device.device_id].device_x25519_private_key
                == device.x25519_private_key
            &&& after.certificates.contains_key(key)
            &&& after.certificates[key].certificate == certificate
            &&& other != account.account_id && storage.accounts.contains_key(other)
                ==> after.accounts.contains_key(other) && after.accounts[other]
                == storage.accounts[other]
            &&& other != device.device_id && storage.devices.contains_key(other)
                ==> after.devices.contains_key(other) && after.devices[other]
                == storage.devices[other]
            &&& pair != key && storage.certificates.contains_key(pair)
                ==> after.certificates.contains_key(pair) && after.certificates[pair]
                == storage.certificates[pair]
        }),
{
}

/// Of the items that wait, the first one for a recipient is taken: it is for that recipient,
/// and none before it is.
pub proof fn law_first_item_for_recipient_is_taken(items: Seq<OutboxRow>, recipient: Seq<char>)
    ensures
        match first_for(items, recipient) {
            Some(item) => exists|i: int|
                0 <= i < items.len() && #[trigger] items[i] == item && item.recipient_id
                    == recipient && forall|j: int|
                    0 <= j < i ==> (#[trigger] items[j]).recipient_id != recipient,
            None => forall|j: int|
                0 <= j < items.len() ==> (#[trigger] items[j]).recipient_id != recipient,
        },
    decreases items.len(),
{
    if items.len() > 0 && items[0].recipient_id != recipient {
        let rest = items.drop_first();
        law_first_item_for_recipient_is_taken(rest, recipient);
        match first_for(rest, recipient) {
            Some(item) => {
                let i = choose|i: int|
                    0 <= i < rest.len() && #[trigger] rest[i] == item && item.recipient_id
                        == recipient && forall|j: int|
                        0 <= j < i ==> (#[trigger] rest[j]).recipient_id != recipient;
                assert(items[i + 1] == item);
                assert forall|j: int| 0 <= j < i + 1 implies (#[trigger] items[j]).recipient_id
                    != recipient by {
                    if j > 0 {
                        assert(rest[j - 1] == items[j]);
                    }
                }
            },
            None => {
                assert forall|j: int| 0 <= j < items.len() implies (
                #[trigger] items[j]).recipient_id != recipient by {
                    if j > 0 {
                        assert(rest[j - 1] == items[j]);
                    }
                }
            },
        }
    } else if items.len() > 0 {
        assert(items[0] == items[0]);
    }
}

/// A list of stored values is read value by value: all of them, in their order.
pub proof fn law_stored_values_are_read_in_order<T: Wire>(
    blobs: Seq<Seq<u8>>,
    values: Seq<T::V>,
    i: int,
)
    requires
        decoded_all::<T>(blobs) == Some(values),
    ensures
        values.len() == blobs.len(),
        0 <= i < blobs.len() ==> decoding::<T>(blobs[i]) == Some(values[i]),
    decreases blobs.len(),
{
    if blobs.len() > 0 {
        let before = decoded_all::<T>(blobs.drop_last())->0;
        law_stored_values_are_read_in_order::<T>(blobs.drop_last(), before, i);
        assert(blobs.last() == blobs[blobs.len() - 1]);
        if 0 <= i < blobs.len() - 1 {
            assert(blobs.drop_last()[i] == blobs[i]);
        }
    }
}

/// Deliveries that are queued one after the other wait all of them, each for its own device,
/// where no two are for one device and message.
pub proof fn law_queued_deliveries_all_wait(
    storage: StorageView,
    sessions: Seq<DeviceSessionView>,
    envelopes: Seq<DeliveryView>,
    states: Seq<Seq<u8>>,
    payloads: Seq<Seq<u8>>,
    now: u64,
    i: int,
)
    requires
        envelopes.len() <= payloads.len(),
        forall|a: int, b: int|
            0 <= a < b < envelopes.len() ==> crate::delivery::delivery_id(
                (#[trigger] envelopes[a]).logical_message_id,
                envelopes[a].recipient_device_id,
            ) != crate::delivery::delivery_id(
                (#[trigger] envelopes[b]).logical_message_id,
                envelopes[b].recipient_device_id,
            ),
    ensures
        ({
            let after = with_deliveries(storage, sessions, envelopes, states, payloads, now);
            &&& after == StorageView {
                pair_sessions: after.pair_sessions,
                outbox: after.outbox,
                ..storage
            }
            &&& 0 <= i < envelopes.len() ==> {
                let id = crate::delivery::delivery_id(
                    envelopes[i].logical_message_id,
                    envelopes[i].recipient_device_id,
                );
                &&& after.outbox.contains_key(id)
                &&& after.outbox[id].payload == payloads[i]
                &&& after.outbox[id].recipient_id == envelopes[i].recipient_device_id
                &&& after.outbox[id].status == OutboxStatus::Pending
            }
        }),
    decreases envelopes.len(),
{
    if envelopes.len() > 0 {
        let rest = envelopes.drop_last();
        let at = envelopes.len() - 1;
        assert forall|a: int, b: int| 0 <= a < b < rest.len() implies crate::delivery::delivery_id(
            (#[trigger] rest[a]).logical_message_id,
            rest[a].recipient_device_id,
        ) != crate::delivery::delivery_id(
            (#[trigger] rest[b]).logical_message_id,
            rest[b].recipient_device_id,
        ) by {
            assert(rest[a] == envelopes[a] && rest[b] == envelopes[b]);
        }
        law_queued_deliveries_all_wait(storage, sessions, rest, states, payloads, now, i);
        if 0 <= i < rest.len() {
            assert(rest[i] == envelopes[i]);
            assert(crate::delivery::delivery_id(
                envelopes[i].logical_message_id,
                envelopes[i].recipient_device_id,
            ) != crate::delivery::delivery_id(
                envelopes[at].logical_message_id,
                envelopes[at].recipient_device_id,
            ));
        }
    }
}

/// Of a table those rows are found, counted and kept that are wanted, and no others.
pub proof fn law_wanted_rows_are_found<K, W>(table: Map<K, W>, wanted: spec_fn(W) -> bool, key: K)
    ensures
        keys_where(table, wanted).contains(key) <==> table.contains_key(key) && wanted(table[key]),
        map_where(table, wanted).contains_key(key) <==> table.contains_key(key) && wanted(
            table[key],
        ),
        map_where(table, wanted).contains_key(key) ==> map_where(table, wanted)[key] == table[key],
{
}

/// What a party reads changes its session and none of its keys.
pub proof fn law_reading_keeps_keys(alice: AliceView, bob: BobView, message: MessageView)
    ensures
        alice.reading(message).0.identity_secret_key == alice.identity_secret_key,
        alice.reading(message).0.x25519_private_key == alice.x25519_private_key,
        bob.reading(message).0.identity_secret_key == bob.identity_secret_key,
        bob.reading(message).0.x25519_private_key == bob.x25519_private_key,
        bob.reading(message).0.signed_prekey_private_key == bob.signed_prekey_private_key,
        bob.reading(message).0.one_time_prekey == bob.one_time_prekey,
        alice.session is None ==> alice.reading(message) == (
            alice,
            Err::<Seq<char>, CryptoError>(CryptoError::MissingSessionKey),
        ),
        bob.session is None ==> bob.reading(message) == (
            bob,
            Err::<Seq<char>, CryptoError>(CryptoError::MissingSessionKey),
        ),
{
}

/// A first message for a prekey that is not there is refused and changes nothing: the prekey
/// that is there stays usable. One that fits leaves all keys but the prekey.
pub proof fn law_first_message_needs_its_prekey(bob: BobView, initial: InitialView)
    ensures
        !(bob.one_time_prekey matches Some(prekey) && prekey.0 == initial.one_time_prekey_id)
            ==> bob.receiving_initial(initial) == (
            bob,
            Err::<Seq<char>, CryptoError>(CryptoError::PreKeyUnavailable),
        ),
        bob.receiving_initial(initial).0.identity_secret_key == bob.identity_secret_key,
        bob.receiving_initial(initial).0.x25519_private_key == bob.x25519_private_key,
        bob.receiving_initial(initial).0.signed_prekey_private_key
            == bob.signed_prekey_private_key,
{
}

/// The key of a first conversation comes from both secrets, that of the signed and that of
/// the one-time prekey; the keys of an exchange and of a ratchet step from all that goes
/// into them.
pub proof fn law_keys_come_from_all_secrets(
    private_key: Seq<u8>,
    peer: Seq<u8>,
    first: Seq<u8>,
    second: Seq<u8>,
    root: Seq<u8>,
)
    ensures
        prekey_aead_key(first, second) == hkdf_sha256(
            None,
            first + second,
            utf8(PREKEY_HKDF_INFO@),
            32,
        ),
        aead_key(private_key, peer) == hkdf_sha256(
            None,
            x25519_shared(private_key, peer),
            utf8(HKDF_INFO@),
            32,
        ),
        dh_ratchet_output(root, first) == hkdf_sha256(
            Some(root),
            first,
            utf8(DH_RATCHET_INFO@),
            96,
        ),
{
}

/// The session of a first message is opened with a fresh key towards the signed prekey.
pub proof fn law_first_session_is_towards_signed_prekey(bundle: BundleView, fresh: Seq<u8>)
    ensures
        ({
            let session = opened_with(bundle, fresh);
            &&& session.dh_private == fresh
            &&& session.peer == bundle.signed_prekey_public_key
            &&& session.role == RatchetRole::Alice
            &&& session.send_count == 0
            &&& session.recv_count == 0
            &&& session.root_key == prekey_aead_key(
                x25519_shared(fresh, bundle.signed_prekey_public_key),
                x25519_shared(fresh, bundle.one_time_prekey_public_key),
            )
        }),
{
}

/// A fresh session has sent, read and passed over nothing.
pub proof fn law_session_starts_afresh(
    root: Seq<u8>,
    role: RatchetRole,
    private_key: Seq<u8>,
    peer: Seq<u8>,
    n: u64,
)
    ensures
        ({
            let session = SessionView::start(root, role, private_key, peer);
            &&& session.send_count == 0
            &&& session.recv_count == 0
            &&& !session.consumed.contains(n)
            &&& !session.skipped.contains_key(n)
            &&& session.root_key == root
            &&& session.dh_private == private_key
            &&& session.peer == peer
            &&& session.can_send()
        }),
{
}

/// A bundle that comes with a name is read with that name as it is shown, and with its keys
/// as they are.
pub proof fn law_named_bundle_is_read(bytes: Seq<u8>, named: ChatBundleView)
    requires
        decoding::<ChatPreKeyBundle>(bytes) == Some(named),
    ensures
        chat_bundle_of(bytes) matches Some(read) && read.bundle == named.bundle
            && read.sender_display_name == shown_name(named.sender_display_name),
{
}

/// A first message that comes with a name and an identity is read with both.
pub proof fn law_named_first_message_is_read(bytes: Seq<u8>, named: ChatInitialView)
    requires
        decoding::<ChatInitialMessage>(bytes) == Some(named),
    ensures
        chat_initial_of(bytes) matches Some(read) && read.message == named.message
            && read.sender_identity_public_key == named.sender_identity_public_key
            && read.sender_display_name == shown_name(named.sender_display_name),
{
}

/// A session that a device starts by a certificate is with the device of the certificate,
/// under that device's key and the own one.
pub proof fn law_session_is_with_certified_device(device: DeviceView, certificate: CertificateView)
    ensures
        ({
            let opened = outbound_session(device, certificate);
            &&& opened.local_device_id == device.device_id
            &&& opened.remote_device_id == certificate.device_id
            &&& opened.session.dh_private == device.x25519_private_key
            &&& opened.session.peer == certificate.x25519_public_key
            &&& opened.session.role == RatchetRole::Alice
            &&& opened.session.root_key == hkdf_sha256(
                None,
                x25519_shared(device.x25519_private_key, certificate.x25519_public_key),
                utf8(HKDF_INFO@),
                32,
            )
            &&& opened.session.send_count == 0
        }),
{
}

/// A revocation of a device that the account did not sign is an error, not a revocation; one
/// that it signed ends the authorization.
pub proof fn law_revocation_needs_the_account(
    account_public_key: Seq<u8>,
    certificate: CertificateView,
    revocation: DeviceRevocation,
)
    requires
        certificate.is_issued_by(account_public_key),
        revocation@.account_id == certificate.account_id,
        revocation@.device_id == certificate.device_id,
    ensures
        ed25519_accepts(account_public_key, revocation@.signed_bytes(), revocation@.signature)
            ==> authorization(account_public_key, certificate, seq![revocation]) == Some(false),
        !ed25519_accepts(account_public_key, revocation@.signed_bytes(), revocation@.signature)
            ==> authorization(account_public_key, certificate, seq![revocation]) is None,
{
    assert(seq![revocation][0] == revocation);
}

} // verus!
