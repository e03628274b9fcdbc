//! Scenes of an account with two devices: a message that reaches both, one that waits for
//! the device that is away, and a device that is revoked.

use crate::bytes::{copy_bytes, copy_text, same_text, utf8};
use crate::crdt::{event_record, ConversationEvent};
use crate::events::EventBody;
use crate::delivery::{
    decoded_all, delivery_id, delivery_outbox_id, encrypt_and_queue_device_delivery,
    holds_certificates, holds_revocations, load_device_certificates, load_device_revocations,
    with_device_delivery, DeliveryError,
};
use crate::device::{
    active_device_certificates, authorization, certificate_views,
    law_revoked_device_is_not_authorized, law_unrevoked_device_is_authorized,
    verify_device_revocation, AccountIdentity,
    AccountView, CertificateView, DeviceCertificate, DeviceDeliveryEnvelope, DeviceIdentity,
    DeviceRevocation, DeviceSession, DeviceSessionView, DeviceView, RevocationView,
};
use crate::error::CryptoError;
use crate::fanout::{
    are_written_to, is_delivery_on, law_device_sessions_are_in_step, open_device_sessions, outbound_session,
    persist_phase_5a_identity, session_for, was_persisted, write_to_devices,
};
use crate::primitives::{aead_overruns, ed25519_signature, x25519_public};
use crate::ratchet::{aead_key, alice_chain, secrets_agree};
use crate::records::{
    CertificateRow, EventRecord, EventRow, OutboxItem, OutboxRow, OutboxStatus, RevocationRow,
};
use crate::scenes::{first_for, is_expected, is_pending_read, read_pending_delivery, PendingRead};
use crate::session::{RatchetRole, SessionView};
use crate::session_laws::{in_step, law_messages_in_order_are_read};
use crate::sorted::{
    is_selection, lemma_empty_selection, lemma_pair_selection, lemma_single_selection, views,
};
use crate::states::{is_device_session_form, DeliveryView};
use crate::storage::{
    certificate_blobs, certificate_place, missing_place, outbox_place, revocation_blobs,
    revocation_place, EventOrder, OutboxOrder, Storage, StorageView,
};
use crate::sync::{all_sync_events, are_missing, may_sync, sync_authorized_sibling_devices};
use crate::wire::{decoding, encode, is_form_of};
use vstd::prelude::*;
use vstd::utf8::{is_ascii_chars, is_ascii_chars_encode_utf8};

verus! {

/// Whether `receiver` has read everything that `sender` has sent it, in order.
pub open spec fn are_linked(sender: DeviceSessionView, receiver: DeviceSessionView) -> bool {
    &&& sender.local_device_id == receiver.remote_device_id
    &&& sender.remote_device_id == receiver.local_device_id
    &&& in_step(sender.session, receiver.session, alice_chain(sender.session.root_key))
}

/// Whether a delivery was queued and its receipt confirmed.
pub open spec fn was_confirmed(
    before: StorageView,
    after: StorageView,
    sender: DeviceSessionView,
    envelope: DeliveryView,
    now: u64,
) -> bool {
    exists|state: Seq<u8>, payload: Seq<u8>|
        {
            &&& is_device_session_form(state, sender)
            &&& is_form_of::<DeviceDeliveryEnvelope>(payload, envelope)
            &&& after == #[trigger] with_device_delivery(
                before,
                sender,
                state,
                envelope,
                payload,
                now,
            ).with_outbox_delivered(
                delivery_id(envelope.logical_message_id, envelope.recipient_device_id),
                now,
            )
        }
}

/// Whether a delivery was queued and waits.
pub open spec fn was_left_waiting(
    before: StorageView,
    after: StorageView,
    sender: DeviceSessionView,
    envelope: DeliveryView,
    now: u64,
) -> bool {
    exists|state: Seq<u8>, payload: Seq<u8>|
        {
            &&& is_device_session_form(state, sender)
            &&& is_form_of::<DeviceDeliveryEnvelope>(payload, envelope)
            &&& after == #[trigger] with_device_delivery(
                before,
                sender,
                state,
                envelope,
                payload,
                now,
            )
        }
}

/// A session after one more message was sent on it.
pub open spec fn after_sending(session: DeviceSessionView) -> DeviceSessionView {
    DeviceSessionView { session: session.session.send_advanced(), ..session }
}

/// A session after a delivery arrived on it.
pub open spec fn after_reading(
    session: DeviceSessionView,
    delivery: DeliveryView,
) -> DeviceSessionView {
    DeviceSessionView { session: session.session.receiving(delivery.message).0, ..session }
}

/// Whether `text` is what a session makes of a delivery.
pub open spec fn reads(
    session: DeviceSessionView,
    delivery: DeliveryView,
    text: Seq<char>,
) -> bool {
    &&& is_expected(session, delivery)
    &&& session.session.receiving(delivery.message).1 == Ok::<Seq<char>, CryptoError>(text)
}

/// The session in which a device reads what another one writes to it.
pub open spec fn inbound_session(receiver: DeviceView, sender: DeviceView) -> DeviceSessionView {
    DeviceSessionView {
        local_device_id: receiver.device_id,
        remote_device_id: sender.device_id,
        session: SessionView::start(
            aead_key(receiver.x25519_private_key, sender.x25519_public_key()),
            RatchetRole::Bob,
            receiver.x25519_private_key,
            sender.x25519_public_key(),
        ),
    }
}

/// A device writes to another that is there: the delivery is queued, read and confirmed.
pub fn deliver_at_once(
    storage: &mut Storage,
    sender: &mut DeviceSession,
    receiver: &mut DeviceSession,
    logical_message_id: &str,
    text: &str,
    now: u64,
) -> (delivered: Result<(DeviceDeliveryEnvelope, String), CryptoError>)
    requires
        old(storage).wf(),
        are_linked(old(sender)@, old(receiver)@),
        old(sender)@.session.can_send(),
        utf8(text@).len() < 64 * 0xffff_ffff,
        !aead_overruns(utf8(text@).len() as int),
    ensures
        final(storage).wf(),
        final(sender)@ == after_sending(old(sender)@),
        are_linked(final(sender)@, final(receiver)@),
        delivered matches Ok((envelope, read)) && {
            &&& read@ == text@
            &&& is_delivery_on(envelope@, old(sender)@, logical_message_id@, text@)
            &&& final(receiver)@ == after_reading(old(receiver)@, envelope@)
            &&& reads(old(receiver)@, envelope@, read@)
            &&& was_confirmed(old(storage)@, final(storage)@, final(sender)@, envelope@, now)
        },
{
    let ghost s = sender@.session;
    let ghost r = receiver@.session;
    let envelope = encrypt_and_queue_device_delivery(
        storage,
        sender,
        logical_message_id,
        text,
        now,
    )?;
    let ghost queued = storage@;
    proof {
        law_messages_in_order_are_read(s, r, alice_chain(s.root_key), envelope@.message, text@);
    }
    let read = receiver.decrypt(&envelope)?;
    storage.mark_outbox_delivered_at(delivery_outbox_id(&envelope).as_str(), now);
    proof {
        let (state, payload) = choose|state: Seq<u8>, payload: Seq<u8>|
            {
                &&& is_device_session_form(state, sender@)
                &&& is_form_of::<DeviceDeliveryEnvelope>(payload, envelope@)
                &&& queued == #[trigger] with_device_delivery(
                    old(storage)@,
                    sender@,
                    state,
                    envelope@,
                    payload,
                    now,
                )
            };
        assert(storage@ == with_device_delivery(
            old(storage)@,
            sender@,
            state,
            envelope@,
            payload,
            now,
        ).with_outbox_delivered(
            delivery_id(envelope@.logical_message_id, envelope@.recipient_device_id),
            now,
        ));
        assert(was_confirmed(old(storage)@, storage@, sender@, envelope@, now));
    }
    Ok((envelope, read))
}

/// Whether a storage holds the certificates of two devices of an account and no others.
pub open spec fn holds_two(
    storage: StorageView,
    account: Seq<char>,
    laptop: CertificateView,
    phone: CertificateView,
) -> bool {
    let certificates = storage.certificates;
    let first = (account, laptop.device_id);
    let second = (account, phone.device_id);
    &&& laptop.device_id != phone.device_id
    &&& certificates.contains_key(first)
    &&& certificates.contains_key(second)
    &&& forall|key: (Seq<char>, Seq<char>)| #[trigger]
        certificates.contains_key(key) ==> key == first || key == second
    &&& certificates[first].account_id == account
    &&& certificates[first].device_id == laptop.device_id
    &&& decoding::<DeviceCertificate>(certificates[first].certificate) == Some(laptop)
    &&& certificates[second].account_id == account
    &&& certificates[second].device_id == phone.device_id
    &&& decoding::<DeviceCertificate>(certificates[second].certificate) == Some(phone)
}

proof fn lemma_two_are_loaded(
    storage: StorageView,
    account: Seq<char>,
    laptop: CertificateView,
    phone: CertificateView,
    loaded: Option<Seq<CertificateView>>,
)
    requires
        holds_two(storage, account, laptop, phone),
        holds_certificates(storage, account, loaded),
    ensures
        loaded == Some(seq![laptop, phone]) || loaded == Some(seq![phone, laptop]),
{
    let rows = choose|rows: Seq<CertificateRow>|
        is_selection::<(Seq<char>, Seq<char>), CertificateRow, String>(
            rows,
            storage.certificates,
            certificate_place(account),
        ) && decoded_all::<DeviceCertificate>(#[trigger] certificate_blobs(rows)) == loaded;
    let first = storage.certificates[(account, laptop.device_id)];
    let second = storage.certificates[(account, phone.device_id)];
    lemma_pair_selection::<(Seq<char>, Seq<char>), CertificateRow, String>(
        rows,
        storage.certificates,
        certificate_place(account),
        (account, laptop.device_id),
        (account, phone.device_id),
    );
    let blobs = certificate_blobs(rows);
    assert(blobs.len() == 2);
    reveal_with_fuel(decoded_all, 3);
    assert(blobs.drop_last().drop_last().len() == 0);
    assert(blobs.drop_last().last() == blobs[0]);
    if rows == seq![first, second] {
        assert(decoded_all::<DeviceCertificate>(blobs)->0 =~= seq![laptop, phone]);
    } else {
        assert(decoded_all::<DeviceCertificate>(blobs)->0 =~= seq![phone, laptop]);
    }
}

/// Whether a storage holds an account with two devices and nothing else.
pub open spec fn is_registered(
    storage: StorageView,
    account: AccountView,
    laptop: DeviceView,
    phone: DeviceView,
    laptop_certificate: CertificateView,
    phone_certificate: CertificateView,
) -> bool {
    exists|first: StorageView|
        {
            &&& #[trigger] was_persisted(
                StorageView::nothing(),
                first,
                account,
                laptop,
                laptop_certificate,
            )
            &&& was_persisted(first, storage, account, phone, phone_certificate)
        }
}

/// A storage that holds an account with two devices and nothing else: the certificates that
/// the account issues to them.
pub fn register_two_devices(
    account: &AccountIdentity,
    laptop: &DeviceIdentity,
    phone: &DeviceIdentity,
) -> (registered: (Storage, DeviceCertificate, DeviceCertificate))
    requires
        account@.is_own_id(),
        laptop@.device_id != phone@.device_id,
    ensures
        registered.0.wf(),
        is_registered(
            registered.0@,
            account@,
            laptop@,
            phone@,
            registered.1@,
            registered.2@,
        ),
        holds_two(
            registered.0@,
            account@.account_id,
            registered.1@,
            registered.2@,
        ),
        registered.0@.outbox == Map::<Seq<char>, OutboxRow>::empty(),
        registered.0@.events == StorageView::nothing().events,
        registered.0@.revocations == StorageView::nothing().revocations,
        certifies(registered.1@, account@, laptop@),
        certifies(registered.2@, account@, phone@),
{
    let mut storage = Storage::open_in_memory();
    let laptop_certificate = account.authorize_device(laptop);
    let phone_certificate = account.authorize_device(phone);
    persist_phase_5a_identity(&mut storage, account, laptop, &laptop_certificate);
    let ghost first = storage@;
    persist_phase_5a_identity(&mut storage, account, phone, &phone_certificate);
    assert(was_persisted(
        StorageView::nothing(),
        first,
        account@,
        laptop@,
        laptop_certificate@,
    ));
    (storage, laptop_certificate, phone_certificate)
}

/// Whether a certificate is the one that an account issues to a device.
pub open spec fn certifies(
    certificate: CertificateView,
    account: AccountView,
    device: DeviceView,
) -> bool {
    &&& certificate.account_id == account.account_id
    &&& certificate.device_id == device.device_id
    &&& certificate.ed25519_public_key == device.ed25519_public_key()
    &&& certificate.x25519_public_key == device.x25519_public_key()
    &&& certificate.signature == ed25519_signature(
        account.secret_key,
        certificate.signed_bytes(),
    )
    &&& certificate.is_issued_by(account.public_key())
}

proof fn lemma_delivery_ids_differ(
    first: Seq<char>,
    second: Seq<char>,
    laptop: Seq<char>,
    phone: Seq<char>,
)
    requires
        first.len() == second.len(),
        first != second || laptop != phone,
    ensures
        delivery_id(first, laptop) != delivery_id(second, phone),
{
    let a = delivery_id(first, laptop);
    let b = delivery_id(second, phone);
    reveal_strlit(":");
    if a == b {
        assert(a.take(first.len() as int) =~= first);
        assert(b.take(first.len() as int) =~= second);
        assert(a.skip(first.len() as int + 1) =~= laptop);
        assert(b.skip(first.len() as int + 1) =~= phone);
    }
}

pub const FANOUT_FIRST_TEXT: &'static str = "hello alice";

pub const FANOUT_SECOND_TEXT: &'static str = "second message";

/// What the scene of a message to two devices shows, and the storage that it leaves.
pub struct FanoutScene {
    pub storage: Storage,
    pub laptop_certificate: DeviceCertificate,
    pub phone_certificate: DeviceCertificate,
    /// The certificates by which the sender found the devices.
    pub authorized: Vec<DeviceCertificate>,
    pub laptop_envelope: DeviceDeliveryEnvelope,
    pub phone_envelope: DeviceDeliveryEnvelope,
    pub laptop_first: String,
    pub phone_first: String,
    pub laptop_second_envelope: DeviceDeliveryEnvelope,
    pub laptop_second: String,
    pub phone_second_envelope: DeviceDeliveryEnvelope,
    /// What waited while the phone was away.
    pub waiting: Vec<OutboxItem>,
    pub phone_second: String,
    /// What waits after the phone has confirmed.
    pub waiting_after: Vec<OutboxItem>,
}

/// Whether the deliveries of the scene say the two texts, each on the session of its device.
pub open spec fn fanout_was_written(shown: FanoutScene, bob: DeviceView) -> bool {
    let to_laptop = outbound_session(bob, shown.laptop_certificate@);
    let to_phone = outbound_session(bob, shown.phone_certificate@);
    &&& is_delivery_on(shown.laptop_envelope@, to_laptop, "logical-1"@, FANOUT_FIRST_TEXT@)
    &&& is_delivery_on(shown.phone_envelope@, to_phone, "logical-1"@, FANOUT_FIRST_TEXT@)
    &&& is_delivery_on(
        shown.laptop_second_envelope@,
        after_sending(to_laptop),
        "logical-2"@,
        FANOUT_SECOND_TEXT@,
    )
    &&& is_delivery_on(
        shown.phone_second_envelope@,
        after_sending(to_phone),
        "logical-2"@,
        FANOUT_SECOND_TEXT@,
    )
}

/// Whether the texts of the scene are what the devices make of the deliveries.
pub open spec fn fanout_was_read(
    shown: FanoutScene,
    laptop: DeviceView,
    phone: DeviceView,
    bob: DeviceView,
) -> bool {
    let at_laptop = inbound_session(laptop, bob);
    let at_phone = inbound_session(phone, bob);
    &&& reads(at_laptop, shown.laptop_envelope@, shown.laptop_first@)
    &&& reads(at_phone, shown.phone_envelope@, shown.phone_first@)
    &&& reads(
        after_reading(at_laptop, shown.laptop_envelope@),
        shown.laptop_second_envelope@,
        shown.laptop_second@,
    )
    &&& reads(
        after_reading(at_phone, shown.phone_envelope@),
        shown.phone_second_envelope@,
        shown.phone_second@,
    )
}

/// Whether `items` are what waits in a storage, the oldest first.
pub open spec fn are_waiting(items: Seq<OutboxRow>, storage: StorageView) -> bool {
    is_selection::<Seq<char>, OutboxRow, OutboxOrder>(
        items,
        storage.outbox,
        outbox_place(OutboxStatus::Pending),
    )
}

/// Whether a storage went through the steps of the scene: from `registered`, with the two
/// devices, by one confirmed delivery each to `first`, `second` and `third`, to `queued`,
/// where the phone's second delivery waits, and on to its confirmation.
pub open spec fn is_fanout_course(
    shown: FanoutScene,
    account: AccountView,
    laptop: DeviceView,
    phone: DeviceView,
    bob: DeviceView,
    now: u64,
    registered: StorageView,
    first: StorageView,
    second: StorageView,
    third: StorageView,
    queued: StorageView,
) -> bool {
    let to_laptop = after_sending(outbound_session(bob, shown.laptop_certificate@));
    let to_phone = after_sending(outbound_session(bob, shown.phone_certificate@));
    &&& is_registered(
        registered,
        account,
        laptop,
        phone,
        shown.laptop_certificate@,
        shown.phone_certificate@,
    )
    &&& holds_certificates(registered, account.account_id, Some(views(shown.authorized@)))
    &&& was_confirmed(registered, first, to_laptop, shown.laptop_envelope@, now)
    &&& was_confirmed(first, second, to_phone, shown.phone_envelope@, now)
    &&& was_confirmed(
        second,
        third,
        after_sending(to_laptop),
        shown.laptop_second_envelope@,
        now,
    )
    &&& was_left_waiting(
        third,
        queued,
        after_sending(to_phone),
        shown.phone_second_envelope@,
        now,
    )
    &&& are_waiting(views(shown.waiting@), queued)
    &&& shown.storage@ == queued.with_outbox_delivered(
        delivery_id("logical-2"@, phone.device_id),
        now,
    )
    &&& are_waiting(views(shown.waiting_after@), shown.storage@)
}

/// Whether the storage of the scene is what its deliveries leave.
pub open spec fn fanout_was_kept(
    shown: FanoutScene,
    account: AccountView,
    laptop: DeviceView,
    phone: DeviceView,
    bob: DeviceView,
    now: u64,
) -> bool {
    exists|
        registered: StorageView,
        first: StorageView,
        second: StorageView,
        third: StorageView,
        queued: StorageView,
    | #[trigger]
        is_fanout_course(
            shown,
            account,
            laptop,
            phone,
            bob,
            now,
            registered,
            first,
            second,
            third,
            queued,
        )
}

/// The two sessions between a device and one that it writes to are linked from the start.
proof fn lemma_linked_from_start(
    sender: DeviceView,
    receiver: DeviceView,
    certificate: CertificateView,
    inbound: DeviceSessionView,
)
    requires
        certificate.device_id == receiver.device_id,
        certificate.x25519_public_key == receiver.x25519_public_key(),
        secrets_agree(receiver.x25519_private_key, sender.x25519_private_key),
        inbound == inbound_session(receiver, sender),
    ensures
        are_linked(outbound_session(sender, certificate), inbound),
        outbound_session(sender, certificate).session.send_count == 0,
{
    law_device_sessions_are_in_step(sender, receiver, certificate);
}

/// The sessions of a device towards the two devices of an account, by what a storage holds.
fn sessions_to_two(
    storage: &Storage,
    account: &AccountIdentity,
    laptop: &DeviceIdentity,
    phone: &DeviceIdentity,
    bob: &DeviceIdentity,
    Ghost(laptop_certificate): Ghost<CertificateView>,
    Ghost(phone_certificate): Ghost<CertificateView>,
) -> (opened: Result<(Vec<DeviceCertificate>, DeviceSession, DeviceSession), DeliveryError>)
    requires
        storage.wf(),
        holds_two(storage@, account@.account_id, laptop_certificate, phone_certificate),
        certifies(laptop_certificate, account@, laptop@),
        certifies(phone_certificate, account@, phone@),
    ensures
        opened matches Ok((certificates, to_laptop, to_phone)) && {
            &&& certificates@.len() == 2
            &&& holds_certificates(storage@, account@.account_id, Some(views(certificates@)))
            &&& to_laptop@ == outbound_session(bob@, laptop_certificate)
            &&& to_phone@ == outbound_session(bob@, phone_certificate)
        },
{
    let certificates = match load_device_certificates(storage, account.account_id()) {
        Some(certificates) => certificates,
        None => {
            proof {
                lemma_two_are_loaded(
                    storage@,
                    account@.account_id,
                    laptop_certificate,
                    phone_certificate,
                    None,
                );
            }
            return Err(DeliveryError::Malformed);
        },
    };
    proof {
        lemma_two_are_loaded(
            storage@,
            account@.account_id,
            laptop_certificate,
            phone_certificate,
            Some(views(certificates@)),
        );
        assert(views(certificates@).len() == 2);
        assert(views(certificates@)[0] == certificates@[0]@);
        assert(views(certificates@)[1] == certificates@[1]@);
    }
    let mut sessions = match open_device_sessions(bob, account.public_key(), &certificates) {
        Ok(sessions) => sessions,
        Err(error) => {
            return Err(DeliveryError::Crypto(error));
        },
    };
    let ghost all = sessions@;
    assert(all[0]@ == outbound_session(bob@, certificates@[0]@));
    assert(all[1]@ == outbound_session(bob@, certificates@[1]@));
    let at_laptop = match session_for(&sessions, laptop.device_id()) {
        Some(at) => at,
        None => {
            return Err(DeliveryError::Malformed);
        },
    };
    let to_laptop = sessions.remove(at_laptop);
    assert(sessions@.len() == 1);
    assert(sessions@[0] == all[1 - at_laptop]);
    let at_phone = match session_for(&sessions, phone.device_id()) {
        Some(at) => at,
        None => {
            return Err(DeliveryError::Malformed);
        },
    };
    let to_phone = sessions.remove(at_phone);
    Ok((certificates, to_laptop, to_phone))
}

proof fn lemma_short_text(text: Seq<char>)
    requires
        is_ascii_chars(text),
        text.len() < 1000,
    ensures
        utf8(text).len() < 1000,
        !aead_overruns(utf8(text).len() as int),
{
    is_ascii_chars_encode_utf8(text);
}

/// Whether what waits in an outbox is one item.
pub open spec fn only_waits(outbox: Map<Seq<char>, OutboxRow>, id: Seq<char>) -> bool {
    &&& outbox.contains_key(id)
    &&& outbox[id].status == OutboxStatus::Pending
    &&& forall|key: Seq<char>| #[trigger]
        outbox.contains_key(key) && outbox[key].status == OutboxStatus::Pending ==> key == id
}

/// Whether nothing waits in an outbox.
pub open spec fn nothing_waits(outbox: Map<Seq<char>, OutboxRow>) -> bool {
    forall|key: Seq<char>| #[trigger]
        outbox.contains_key(key) ==> outbox[key].status != OutboxStatus::Pending
}

/// A message to an account reaches both of its devices, each on a session of its own. A
/// second one reaches the device that is there, waits for the other, and is read by it
/// later.
#[verifier::rlimit(40)]
#[verifier::spinoff_prover]
pub fn fanout_scene(
    account: &AccountIdentity,
    laptop: &DeviceIdentity,
    phone: &DeviceIdentity,
    bob: &DeviceIdentity,
    now: u64,
) -> (shown: Result<FanoutScene, DeliveryError>)
    requires
        account@.is_own_id(),
        laptop@.device_id != phone@.device_id,
        laptop@.x25519_private_key.len() == 32,
        phone@.x25519_private_key.len() == 32,
        bob@.x25519_private_key.len() == 32,
    ensures
        shown matches Ok(shown) && {
            &&& shown.storage.wf()
            &&& certifies(shown.laptop_certificate@, account@, laptop@)
            &&& certifies(shown.phone_certificate@, account@, phone@)
            &&& fanout_was_written(shown, bob@)
            &&& fanout_was_read(shown, laptop@, phone@, bob@)
            &&& fanout_was_kept(shown, account@, laptop@, phone@, bob@, now)
            &&& shown.authorized@.len() == 2
            &&& shown.laptop_first@ == FANOUT_FIRST_TEXT@
            &&& shown.phone_first@ == FANOUT_FIRST_TEXT@
            &&& shown.laptop_second@ == FANOUT_SECOND_TEXT@
            &&& shown.waiting@.len() == 1
            &&& shown.phone_second@ == FANOUT_SECOND_TEXT@
            &&& shown.waiting_after@.len() == 0
        },
{
    proof {
        reveal_strlit("hello alice");
        reveal_strlit("second message");
        reveal_strlit("logical-1");
        reveal_strlit("logical-2");
        lemma_short_text(FANOUT_FIRST_TEXT@);
        lemma_short_text(FANOUT_SECOND_TEXT@);
        assert("logical-1"@[8] != "logical-2"@[8]);
    }
    let ghost l = laptop@.device_id;
    let ghost p = phone@.device_id;
    let ghost first_l = delivery_id("logical-1"@, l);
    let ghost first_p = delivery_id("logical-1"@, p);
    let ghost second_l = delivery_id("logical-2"@, l);
    let ghost second_p = delivery_id("logical-2"@, p);
    proof {
        lemma_delivery_ids_differ("logical-1"@, "logical-1"@, l, p);
        lemma_delivery_ids_differ("logical-2"@, "logical-2"@, l, p);
        lemma_delivery_ids_differ("logical-1"@, "logical-2"@, l, p);
        lemma_delivery_ids_differ("logical-1"@, "logical-2"@, p, p);
        lemma_delivery_ids_differ("logical-1"@, "logical-2"@, l, l);
        lemma_delivery_ids_differ("logical-1"@, "logical-2"@, p, l);
    }
    let (mut storage, laptop_certificate, phone_certificate) = register_two_devices(
        account,
        laptop,
        phone,
    );
    let ghost registered = storage@;
    let (authorized, mut to_laptop, mut to_phone) = sessions_to_two(
        &storage,
        account,
        laptop,
        phone,
        bob,
        Ghost(laptop_certificate@),
        Ghost(phone_certificate@),
    )?;
    let mut at_laptop = match laptop.create_inbound_session(
        bob.device_id(),
        bob.x25519_public_key(),
    ) {
        Ok(session) => session,
        Err(error) => {
            return Err(DeliveryError::Crypto(error));
        },
    };
    let mut at_phone = match phone.create_inbound_session(
        bob.device_id(),
        bob.x25519_public_key(),
    ) {
        Ok(session) => session,
        Err(error) => {
            return Err(DeliveryError::Crypto(error));
        },
    };
    proof {
        assert(x25519_public(bob@.x25519_private_key) == bob@.x25519_public_key());
        lemma_linked_from_start(bob@, laptop@, laptop_certificate@, at_laptop@);
        lemma_linked_from_start(bob@, phone@, phone_certificate@, at_phone@);
    }
    let (laptop_envelope, laptop_first) = match deliver_at_once(
        &mut storage,
        &mut to_laptop,
        &mut at_laptop,
        "logical-1",
        FANOUT_FIRST_TEXT,
        now,
    ) {
        Ok(delivered) => delivered,
        Err(error) => {
            return Err(DeliveryError::Crypto(error));
        },
    };
    assert(nothing_waits(storage@.outbox) && storage@.outbox.dom() =~= set![first_l]);
    let ghost first = storage@;
    let (phone_envelope, phone_first) = match deliver_at_once(
        &mut storage,
        &mut to_phone,
        &mut at_phone,
        "logical-1",
        FANOUT_FIRST_TEXT,
        now,
    ) {
        Ok(delivered) => delivered,
        Err(error) => {
            return Err(DeliveryError::Crypto(error));
        },
    };
    assert(nothing_waits(storage@.outbox) && storage@.outbox.dom() =~= set![first_l, first_p]);
    let ghost second = storage@;
    let (laptop_second_envelope, laptop_second) = match deliver_at_once(
        &mut storage,
        &mut to_laptop,
        &mut at_laptop,
        "logical-2",
        FANOUT_SECOND_TEXT,
        now,
    ) {
        Ok(delivered) => delivered,
        Err(error) => {
            return Err(DeliveryError::Crypto(error));
        },
    };
    assert(nothing_waits(storage@.outbox) && storage@.outbox.dom() =~= set![
        first_l,
        first_p,
        second_l,
    ]);
    let ghost third = storage@;
    let ghost sender = to_phone@.session;
    let phone_second_envelope = match encrypt_and_queue_device_delivery(
        &mut storage,
        &mut to_phone,
        "logical-2",
        FANOUT_SECOND_TEXT,
        now,
    ) {
        Ok(envelope) => envelope,
        Err(error) => {
            return Err(DeliveryError::Crypto(error));
        },
    };
    let ghost outbox = storage@.outbox;
    proof {
        law_messages_in_order_are_read(
            sender,
            at_phone@.session,
            alice_chain(sender.root_key),
            phone_second_envelope@.message,
            FANOUT_SECOND_TEXT@,
        );
        assert(only_waits(outbox, second_p));
        assert(outbox[second_p].recipient_id == p);
        assert(outbox[second_p].message_id == second_p);
        assert(decoding::<DeviceDeliveryEnvelope>(outbox[second_p].payload) == Some(
            phone_second_envelope@,
        ));
    }
    let items = storage.pending_outbox_items();
    proof {
        lemma_single_selection::<Seq<char>, OutboxRow, OutboxOrder>(
            views(items@),
            outbox,
            outbox_place(OutboxStatus::Pending),
            second_p,
        );
    }
    let ghost before = storage@;
    let ghost receiver = at_phone@;
    let read = read_pending_delivery(&mut storage, &mut at_phone, now);
    proof {
        let rows = choose|rows: Seq<OutboxRow>|
            {
                &&& is_selection::<Seq<char>, OutboxRow, OutboxOrder>(
                    rows,
                    before.outbox,
                    outbox_place(OutboxStatus::Pending),
                )
                &&& is_pending_read(
                    before,
                    storage@,
                    receiver,
                    at_phone@,
                    #[trigger] first_for(rows, receiver.local_device_id),
                    read,
                    now,
                )
            };
        lemma_single_selection::<Seq<char>, OutboxRow, OutboxOrder>(
            rows,
            outbox,
            outbox_place(OutboxStatus::Pending),
            second_p,
        );
        assert(first_for(rows, p) == Some(outbox[second_p]));
        assert(nothing_waits(storage@.outbox));
    }
    let phone_second = match read {
        PendingRead::Read(text) => text,
        PendingRead::Nothing => {
            return Err(DeliveryError::Malformed);
        },
        PendingRead::Refused(error) => {
            return Err(error);
        },
    };
    let left = storage.pending_outbox_items();
    proof {
        lemma_empty_selection::<Seq<char>, OutboxRow, OutboxOrder>(
            views(left@),
            storage@.outbox,
            outbox_place(OutboxStatus::Pending),
        );
    }
    let shown = FanoutScene {
        storage,
        laptop_certificate,
        phone_certificate,
        authorized,
        laptop_envelope,
        phone_envelope,
        laptop_first,
        phone_first,
        laptop_second_envelope,
        laptop_second,
        phone_second_envelope,
        waiting: items,
        phone_second,
        waiting_after: left,
    };
    proof {
        assert(was_left_waiting(
            third,
            before,
            to_phone@,
            shown.phone_second_envelope@,
            now,
        ));
        assert(is_fanout_course(
            shown,
            account@,
            laptop@,
            phone@,
            bob@,
            now,
            registered,
            first,
            second,
            third,
            before,
        ));
    }
    Ok(shown)
}

pub const REVOCATION_TEXT: &'static str = "future laptop only";

pub const REVOCATION_CONVERSATION: &'static str = "revocation-demo-conversation";

/// What the scene of a device that is revoked shows, and the storage that it leaves.
pub struct RevocationScene {
    pub storage: Storage,
    pub laptop_certificate: DeviceCertificate,
    pub phone_certificate: DeviceCertificate,
    /// The devices that may be written to before the revocation.
    pub active_before: Vec<DeviceCertificate>,
    /// The revocations that the storage holds.
    pub revocations: Vec<DeviceRevocation>,
    /// The devices that may be written to after the revocation.
    pub active_after: Vec<DeviceCertificate>,
    /// The sessions with the active devices, and what was written on them.
    pub sessions: Vec<DeviceSession>,
    pub envelopes: Vec<DeviceDeliveryEnvelope>,
    pub laptop_text: String,
    pub phone_is_written_to: bool,
    pub sync_allowed: bool,
    pub history: Vec<EventRecord>,
    pub sessions_only_to_active: bool,
}

/// What the phone said before it was revoked.
pub open spec fn old_event(account: AccountView, phone: DeviceView) -> EventRow {
    let event = EventBody::MessageCreated {
        message_id: "old-phone-message"@,
        author_id: account.account_id,
        payload: utf8("old phone history remains"@),
    };
    EventRow {
        device_id: phone.device_id,
        counter: 1,
        conversation_id: REVOCATION_CONVERSATION@,
        event_type: event.kind_name(),
        message_id: event.message_id(),
        payload: event.encoded(),
        created_at_unix_secs: 0,
    }
}

/// Whether a revocation is the first one that an account issues of a device.
pub open spec fn revokes(
    revocation: RevocationView,
    account: AccountView,
    device: DeviceView,
) -> bool {
    &&& revocation == (RevocationView {
        account_id: account.account_id,
        device_id: device.device_id,
        revocation_counter: 1,
        signature: ed25519_signature(account.secret_key, revocation.signed_bytes()),
    })
    &&& revocation.is_issued_by(account.public_key())
}

/// Whether `after` is `before` with a revocation stored, and stored once more, at some times.
pub open spec fn was_revoked_twice(
    before: StorageView,
    after: StorageView,
    revocation: RevocationView,
) -> bool {
    exists|bytes: Seq<u8>, first: u64, second: u64|
        {
            &&& is_form_of::<DeviceRevocation>(bytes, revocation)
            &&& after == #[trigger] before.with_revocation(
                revocation.account_id,
                revocation.device_id,
                revocation.revocation_counter,
                bytes,
                first,
            ).with_revocation(
                revocation.account_id,
                revocation.device_id,
                revocation.revocation_counter,
                bytes,
                second,
            )
        }
}

/// Whether `active` are those of the certificates in a storage that an account admits under
/// some revocations.
pub open spec fn are_admitted(
    active: Seq<CertificateView>,
    storage: StorageView,
    account: AccountView,
    revocations: Seq<DeviceRevocation>,
) -> bool {
    exists|listed: Seq<CertificateView>|
        {
            &&& #[trigger] holds_certificates(storage, account.account_id, Some(listed))
            &&& active == listed.filter(
                |certificate: CertificateView|
                    authorization(account.public_key(), certificate, revocations) == Some(true),
            )
        }
}

/// Whether the storage of the scene went on from the two devices in `registered` by the old
/// event and by the revocation, and what the scene shows is what it held on the way.
pub open spec fn is_revocation_course(
    shown: RevocationScene,
    account: AccountView,
    laptop: DeviceView,
    phone: DeviceView,
    registered: StorageView,
) -> bool {
    let told = registered.with_event(old_event(account, phone));
    &&& is_registered(
        registered,
        account,
        laptop,
        phone,
        shown.laptop_certificate@,
        shown.phone_certificate@,
    )
    &&& are_admitted(views(shown.active_before@), told, account, Seq::empty())
    &&& shown.revocations@.len() == 1
    &&& revokes(shown.revocations@[0]@, account, phone)
    &&& was_revoked_twice(told, shown.storage@, shown.revocations@[0]@)
    &&& holds_revocations(
        shown.storage@,
        account.account_id,
        Some(views(shown.revocations@)),
    )
    &&& are_admitted(
        views(shown.active_after@),
        shown.storage@,
        account,
        shown.revocations@,
    )
    &&& are_missing(
        views(shown.history@),
        shown.storage@,
        REVOCATION_CONVERSATION@,
        Map::empty(),
    )
}

/// Whether the storage of the scene is what the old event and the revocation leave.
pub open spec fn revocation_was_kept(
    shown: RevocationScene,
    account: AccountView,
    laptop: DeviceView,
    phone: DeviceView,
) -> bool {
    exists|registered: StorageView| #[trigger]
        is_revocation_course(shown, account, laptop, phone, registered)
}

/// Whether one of the envelopes is for a device.
pub open spec fn is_any_for(envelopes: Seq<DeliveryView>, device_id: Seq<char>) -> bool {
    exists|i: int|
        0 <= i < envelopes.len() && (#[trigger] envelopes[i]).recipient_device_id == device_id
}

/// Whether one of the sessions is with a device.
pub open spec fn is_any_with(sessions: Seq<DeviceSessionView>, device_id: Seq<char>) -> bool {
    exists|i: int|
        0 <= i < sessions.len() && (#[trigger] sessions[i]).remote_device_id == device_id
}

/// Whether the sessions and envelopes of the scene are what is written to the active devices,
/// and the text is what the laptop makes of it.
pub open spec fn revocation_was_minded(
    shown: RevocationScene,
    account: AccountView,
    laptop: DeviceView,
    phone: DeviceView,
    bob: DeviceView,
) -> bool {
    &&& are_written_to(
        views(shown.envelopes@),
        bob,
        views(shown.active_after@),
        "post-revocation-logical-1"@,
        REVOCATION_TEXT@,
    )
    &&& shown.sessions@.len() == shown.active_after@.len()
    &&& forall|i: int|
        0 <= i < shown.sessions@.len() ==> (#[trigger] shown.sessions@[i])@ == after_sending(
            outbound_session(bob, shown.active_after@[i]@),
        )
    &&& exists|i: int|
        0 <= i < shown.envelopes@.len() && reads(
            inbound_session(laptop, bob),
            (#[trigger] shown.envelopes@[i])@,
            shown.laptop_text@,
        )
    &&& shown.phone_is_written_to == is_any_for(views(shown.envelopes@), phone.device_id)
    &&& shown.sync_allowed == may_sync(
        account.public_key(),
        shown.laptop_certificate,
        shown.phone_certificate,
        shown.revocations@,
    )
    &&& shown.sessions_only_to_active == (is_any_with(views(shown.sessions@), laptop.device_id)
        && !is_any_with(views(shown.sessions@), phone.device_id))
}

/// The place of the first envelope for a device.
pub fn envelope_for(envelopes: &Vec<DeviceDeliveryEnvelope>, device_id: &str) -> (place: Option<
    usize,
>)
    ensures
        match place {
            Some(i) => {
                &&& i < envelopes@.len()
                &&& envelopes@[i as int]@.recipient_device_id == device_id@
                &&& forall|j: int|
                    0 <= j < i ==> (#[trigger] envelopes@[j])@.recipient_device_id != device_id@
            },
            None => forall|j: int|
                0 <= j < envelopes@.len() ==> (#[trigger] envelopes@[j])@.recipient_device_id
                    != device_id@,
        },
{
    let mut i: usize = 0;
    while i < envelopes.len()
        invariant
            i <= envelopes@.len(),
            forall|j: int|
                0 <= j < i ==> (#[trigger] envelopes@[j])@.recipient_device_id != device_id@,
        decreases envelopes@.len() - i,
    {
        if same_text(envelopes[i].recipient_device_id.as_str(), device_id) {
            return Some(i);
        }
        i += 1;
    }
    None
}

/// Of a device that is revoked and one that is not, only the latter is active.
proof fn lemma_only_laptop_is_active(
    account: AccountView,
    laptop: CertificateView,
    phone: CertificateView,
    certificates: Seq<CertificateView>,
    revocations: Seq<DeviceRevocation>,
)
    requires
        laptop.is_issued_by(account.public_key()),
        phone.is_issued_by(account.public_key()),
        laptop.device_id != phone.device_id,
        certificates == seq![laptop, phone] || certificates == seq![phone, laptop],
        revocations.len() == 1,
        revocations[0]@.is_about(phone),
        revocations[0]@.is_issued_by(account.public_key()),
    ensures
        authorization(account.public_key(), laptop, revocations) == Some(true),
        authorization(account.public_key(), phone, revocations) == Some(false),
        certificates.filter(
            |certificate: CertificateView|
                authorization(account.public_key(), certificate, revocations) == Some(true),
        ) == seq![laptop],
{
    law_unrevoked_device_is_authorized(account.public_key(), laptop, revocations);
    law_revoked_device_is_not_authorized(account.public_key(), phone, revocations, 0);
    let is_active = |certificate: CertificateView|
        authorization(account.public_key(), certificate, revocations) == Some(true);
    reveal_with_fuel(Seq::<CertificateView>::filter, 3);
    assert(certificates.drop_last().drop_last().len() == 0);
    assert(certificates.drop_last().last() == certificates[0]);
    assert(certificates.filter(is_active) =~= seq![laptop]);
}

/// Where nothing is revoked, both devices are active.
proof fn lemma_both_are_active(
    account: AccountView,
    laptop: CertificateView,
    phone: CertificateView,
    certificates: Seq<CertificateView>,
    revocations: Seq<DeviceRevocation>,
)
    requires
        laptop.is_issued_by(account.public_key()),
        phone.is_issued_by(account.public_key()),
        certificates == seq![laptop, phone] || certificates == seq![phone, laptop],
        revocations.len() == 0,
    ensures
        forall|i: int|
            0 <= i < 2 ==> authorization(
                account.public_key(),
                #[trigger] certificates[i],
                revocations,
            ) == Some(true),
        certificates.filter(
            |certificate: CertificateView|
                authorization(account.public_key(), certificate, revocations) == Some(true),
        ) == certificates,
{
    law_unrevoked_device_is_authorized(account.public_key(), laptop, revocations);
    law_unrevoked_device_is_authorized(account.public_key(), phone, revocations);
    let is_active = |certificate: CertificateView|
        authorization(account.public_key(), certificate, revocations) == Some(true);
    reveal_with_fuel(Seq::<CertificateView>::filter, 3);
    assert(certificates.drop_last().drop_last().len() == 0);
    assert(certificates.drop_last().last() == certificates[0]);
    assert(certificates.filter(is_active) =~= certificates);
}

/// A storage that holds one revocation gives back that one.
proof fn lemma_one_is_loaded(
    storage: StorageView,
    account: Seq<char>,
    revocation: RevocationView,
    loaded: Option<Seq<RevocationView>>,
)
    requires
        storage.revocations.contains_key((account, revocation.device_id)),
        forall|key: (Seq<char>, Seq<char>)| #[trigger]
            storage.revocations.contains_key(key) ==> key == (account, revocation.device_id),
        storage.revocations[(account, revocation.device_id)].account_id == account,
        decoding::<DeviceRevocation>(
            storage.revocations[(account, revocation.device_id)].revocation,
        ) == Some(revocation),
        holds_revocations(storage, account, loaded),
    ensures
        loaded == Some(seq![revocation]),
{
    let rows = choose|rows: Seq<RevocationRow>|
        is_selection::<(Seq<char>, Seq<char>), RevocationRow, String>(
            rows,
            storage.revocations,
            revocation_place(account),
        ) && decoded_all::<DeviceRevocation>(#[trigger] revocation_blobs(rows)) == loaded;
    lemma_single_selection::<(Seq<char>, Seq<char>), RevocationRow, String>(
        rows,
        storage.revocations,
        revocation_place(account),
        (account, revocation.device_id),
    );
    let blobs = revocation_blobs(rows);
    assert(blobs.len() == 1);
    reveal_with_fuel(decoded_all, 2);
    assert(blobs.drop_last().len() == 0);
    assert(decoded_all::<DeviceRevocation>(blobs)->0 =~= seq![revocation]);
}

/// The devices of an account that are active where nothing is revoked: both.
fn active_at_first(
    storage: &Storage,
    account: &AccountIdentity,
    Ghost(laptop): Ghost<CertificateView>,
    Ghost(phone): Ghost<CertificateView>,
) -> (active: Result<Vec<DeviceCertificate>, DeliveryError>)
    requires
        storage.wf(),
        holds_two(storage@, account@.account_id, laptop, phone),
        laptop.is_issued_by(account@.public_key()),
        phone.is_issued_by(account@.public_key()),
    ensures
        active matches Ok(active) && active@.len() == 2 && are_admitted(
            views(active@),
            storage@,
            account@,
            Seq::empty(),
        ),
{
    let certificates = match load_device_certificates(storage, account.account_id()) {
        Some(certificates) => certificates,
        None => {
            proof {
                lemma_two_are_loaded(storage@, account@.account_id, laptop, phone, None);
            }
            return Err(DeliveryError::Malformed);
        },
    };
    let none: Vec<DeviceRevocation> = Vec::new();
    proof {
        let listed = views(certificates@);
        lemma_two_are_loaded(storage@, account@.account_id, laptop, phone, Some(listed));
        assert(listed =~= certificate_views(certificates@));
        assert(listed[0] == certificates@[0]@);
        assert(listed[1] == certificates@[1]@);
        lemma_both_are_active(account@, laptop, phone, listed, none@);
    }
    match active_device_certificates(
        account.public_key(),
        certificates.as_slice(),
        none.as_slice(),
    ) {
        Ok(active) => {
            assert(views(active@) =~= certificate_views(active@));
            assert(none@ =~= Seq::empty());
            assert(are_admitted(views(active@), storage@, account@, Seq::empty()));
            Ok(active)
        },
        Err(error) => Err(DeliveryError::Crypto(error)),
    }
}

/// Revokes a device, stores the revocation twice, and gives back what the storage holds of
/// it: one revocation.
fn revoke_and_load(storage: &mut Storage, account: &AccountIdentity, device: &DeviceIdentity) -> (
    revocations: Result<Vec<DeviceRevocation>, DeliveryError>)
    requires
        old(storage).wf(),
        account@.is_own_id(),
        old(storage)@.revocations == StorageView::nothing().revocations,
    ensures
        final(storage).wf(),
        revocations matches Ok(revocations) && {
            &&& revocations@.len() == 1
            &&& revokes(revocations@[0]@, account@, device@)
            &&& was_revoked_twice(old(storage)@, final(storage)@, revocations@[0]@)
            &&& holds_revocations(
                final(storage)@,
                account@.account_id,
                Some(views(revocations@)),
            )
        },
{
    let revocation = account.revoke_device(device.device_id(), 1);
    if let Err(error) = verify_device_revocation(account.public_key(), &revocation) {
        return Err(DeliveryError::Crypto(error));
    }
    let ghost before = storage@;
    let blob = encode(&revocation);
    storage.save_device_revocation(account.account_id(), device.device_id(), 1, blob.as_slice());
    storage.save_device_revocation(account.account_id(), device.device_id(), 1, blob.as_slice());
    assert(was_revoked_twice(before, storage@, revocation@));
    match load_device_revocations(storage, account.account_id()) {
        Some(revocations) => {
            proof {
                lemma_one_is_loaded(
                    storage@,
                    account@.account_id,
                    revocation@,
                    Some(views(revocations@)),
                );
                assert(views(revocations@).len() == 1);
                assert(views(revocations@)[0] == revocations@[0]@);
            }
            Ok(revocations)
        },
        None => {
            proof {
                lemma_one_is_loaded(storage@, account@.account_id, revocation@, None);
            }
            Err(DeliveryError::Malformed)
        },
    }
}

/// The devices of an account that are active after one of them was revoked: the other.
fn active_later(
    storage: &Storage,
    account: &AccountIdentity,
    revocations: &Vec<DeviceRevocation>,
    Ghost(laptop): Ghost<CertificateView>,
    Ghost(phone): Ghost<CertificateView>,
) -> (active: Result<Vec<DeviceCertificate>, DeliveryError>)
    requires
        storage.wf(),
        holds_two(storage@, account@.account_id, laptop, phone),
        laptop.is_issued_by(account@.public_key()),
        phone.is_issued_by(account@.public_key()),
        revocations@.len() == 1,
        revocations@[0]@.is_about(phone),
        revocations@[0]@.is_issued_by(account@.public_key()),
    ensures
        active matches Ok(active) && active@.len() == 1 && active@[0]@ == laptop && are_admitted(
            views(active@),
            storage@,
            account@,
            revocations@,
        ),
{
    let certificates = match load_device_certificates(storage, account.account_id()) {
        Some(certificates) => certificates,
        None => {
            proof {
                lemma_two_are_loaded(storage@, account@.account_id, laptop, phone, None);
            }
            return Err(DeliveryError::Malformed);
        },
    };
    proof {
        let listed = views(certificates@);
        lemma_two_are_loaded(storage@, account@.account_id, laptop, phone, Some(listed));
        assert(listed =~= certificate_views(certificates@));
        assert(listed[0] == certificates@[0]@);
        assert(listed[1] == certificates@[1]@);
        lemma_only_laptop_is_active(account@, laptop, phone, listed, revocations@);
    }
    match active_device_certificates(
        account.public_key(),
        certificates.as_slice(),
        revocations.as_slice(),
    ) {
        Ok(active) => {
            assert(certificate_views(active@).len() == 1);
            assert(certificate_views(active@)[0] == active@[0]@);
            assert(views(active@) =~= certificate_views(active@));
            assert(are_admitted(views(active@), storage@, account@, revocations@));
            Ok(active)
        },
        Err(error) => Err(DeliveryError::Crypto(error)),
    }
}

proof fn lemma_revocation_text()
    ensures
        utf8(REVOCATION_TEXT@).len() < 1000,
        !aead_overruns(utf8(REVOCATION_TEXT@).len() as int),
{
    reveal_strlit("future laptop only");
    lemma_short_text(REVOCATION_TEXT@);
}

/// Writes to one device by its certificate.
fn write_to_one(
    account: &AccountIdentity,
    bob: &DeviceIdentity,
    active: &Vec<DeviceCertificate>,
) -> (written: Result<(Vec<DeviceSession>, Vec<DeviceDeliveryEnvelope>), DeliveryError>)
    requires
        active@.len() == 1,
        active@[0]@.is_issued_by(account@.public_key()),
    ensures
        written matches Ok((sessions, envelopes)) && {
            &&& sessions@.len() == 1
            &&& envelopes@.len() == 1
            &&& sessions@[0]@ == after_sending(outbound_session(bob@, active@[0]@))
            &&& are_written_to(
                views(envelopes@),
                bob@,
                views(active@),
                "post-revocation-logical-1"@,
                REVOCATION_TEXT@,
            )
            &&& is_delivery_on(
                envelopes@[0]@,
                outbound_session(bob@, active@[0]@),
                "post-revocation-logical-1"@,
                REVOCATION_TEXT@,
            )
        },
{
    proof {
        lemma_revocation_text();
    }
    match write_to_devices(
        bob,
        account.public_key(),
        active,
        "post-revocation-logical-1",
        REVOCATION_TEXT,
    ) {
        Ok((sessions, envelopes)) => {
            assert(views(envelopes@).len() == 1);
            assert(views(envelopes@)[0] == envelopes@[0]@);
            assert(views(active@)[0] == active@[0]@);
            Ok((sessions, envelopes))
        },
        Err(error) => Err(DeliveryError::Crypto(error)),
    }
}

/// One of the two devices of an account is revoked. From then on only the other is written
/// to, and the two do not sync; what the revoked device had said before stays.
#[verifier::rlimit(40)]
#[verifier::spinoff_prover]
pub fn revocation_scene(
    account: &AccountIdentity,
    laptop: &DeviceIdentity,
    phone: &DeviceIdentity,
    bob: &DeviceIdentity,
) -> (shown: Result<RevocationScene, DeliveryError>)
    requires
        account@.is_own_id(),
        laptop@.device_id != phone@.device_id,
        laptop@.x25519_private_key.len() == 32,
        bob@.x25519_private_key.len() == 32,
    ensures
        shown matches Ok(shown) && {
            &&& shown.storage.wf()
            &&& certifies(shown.laptop_certificate@, account@, laptop@)
            &&& certifies(shown.phone_certificate@, account@, phone@)
            &&& revocation_was_kept(shown, account@, laptop@, phone@)
            &&& revocation_was_minded(shown, account@, laptop@, phone@, bob@)
            &&& shown.active_before@.len() == 2
            &&& views(shown.active_after@) == seq![shown.laptop_certificate@]
            &&& shown.envelopes@.len() == 1
            &&& shown.laptop_text@ == REVOCATION_TEXT@
            &&& !shown.phone_is_written_to
            &&& !shown.sync_allowed
            &&& views(shown.history@) == seq![old_event(account@, phone@)]
            &&& shown.sessions_only_to_active
        },
{
    proof {
        lemma_revocation_text();
    }
    let (mut storage, laptop_certificate, phone_certificate) = register_two_devices(
        account,
        laptop,
        phone,
    );
    let ghost l = laptop_certificate@;
    let ghost p = phone_certificate@;
    let ghost registered = storage@;
    let event = event_record(
        REVOCATION_CONVERSATION,
        phone.device_id(),
        1,
        ConversationEvent::MessageCreated {
            message_id: copy_text("old-phone-message"),
            author_id: copy_text(account.account_id()),
            payload: copy_bytes("old phone history remains".as_bytes()),
        },
    );
    assert(event@ == old_event(account@, phone@));
    storage.append_event(&event);
    let active_before = active_at_first(&storage, account, Ghost(l), Ghost(p))?;
    let revocations = revoke_and_load(&mut storage, account, phone)?;
    let active_after = active_later(&storage, account, &revocations, Ghost(l), Ghost(p))?;
    let (sessions, envelopes) = write_to_one(account, bob, &active_after)?;
    let at = match envelope_for(&envelopes, laptop.device_id()) {
        Some(at) => at,
        None => {
            return Err(DeliveryError::Malformed);
        },
    };
    let phone_is_written_to = envelope_for(&envelopes, phone.device_id()).is_some();
    let mut at_laptop = match laptop.create_inbound_session(
        bob.device_id(),
        bob.x25519_public_key(),
    ) {
        Ok(session) => session,
        Err(error) => {
            return Err(DeliveryError::Crypto(error));
        },
    };
    proof {
        assert(x25519_public(bob@.x25519_private_key) == bob@.x25519_public_key());
        lemma_linked_from_start(bob@, laptop@, l, at_laptop@);
        let sender = outbound_session(bob@, l).session;
        law_messages_in_order_are_read(
            sender,
            at_laptop@.session,
            alice_chain(sender.root_key),
            envelopes@[at as int]@.message,
            REVOCATION_TEXT@,
        );
    }
    let laptop_text = match at_laptop.decrypt(&envelopes[at]) {
        Ok(text) => text,
        Err(error) => {
            return Err(DeliveryError::Crypto(error));
        },
    };
    proof {
        law_revoked_device_is_not_authorized(account@.public_key(), p, revocations@, 0);
    }
    let mut other = Storage::open_in_memory();
    let sync_allowed = sync_authorized_sibling_devices(
        account.public_key(),
        &laptop_certificate,
        &phone_certificate,
        revocations.as_slice(),
        &mut storage,
        &mut other,
        REVOCATION_CONVERSATION,
    ).is_ok();
    let history = all_sync_events(&storage, REVOCATION_CONVERSATION);
    proof {
        lemma_single_selection::<(Seq<char>, u64), EventRow, EventOrder>(
            views(history@),
            storage@.events,
            missing_place(REVOCATION_CONVERSATION@, Map::empty()),
            (phone@.device_id, 1u64),
        );
    }
    let sessions_only_to_active = session_for(&sessions, laptop.device_id()).is_some()
        && session_for(&sessions, phone.device_id()).is_none();
    let shown = RevocationScene {
        storage,
        laptop_certificate,
        phone_certificate,
        active_before,
        revocations,
        active_after,
        sessions,
        envelopes,
        laptop_text,
        phone_is_written_to,
        sync_allowed,
        history,
        sessions_only_to_active,
    };
    proof {
        let written = views(shown.envelopes@);
        let opened = views(shown.sessions@);
        assert(written.len() == 1 && written[0] == shown.envelopes@[0]@);
        assert(opened.len() == 1 && opened[0] == shown.sessions@[0]@);
        assert(views(shown.active_after@) =~= seq![l]);
        assert(reads(
            inbound_session(laptop@, bob@),
            shown.envelopes@[at as int]@,
            shown.laptop_text@,
        ));
        assert(is_revocation_course(shown, account@, laptop@, phone@, registered));
    }
    Ok(shown)
}

} // verus!
