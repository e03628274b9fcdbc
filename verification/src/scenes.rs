//! Scenes of replicas that exchange events, and of devices that are written to.

use crate::bytes::{copy_text, same_text};
use crate::crdt::{is_state_of, materialize_conversation, ConversationState, ConversationView};
use crate::crdt_laws::{is_coherent, law_exchange_at_once_converges, law_synced_replicas_converge};
use crate::delivery::{
    holds_certificates, holds_revocations, load_device_certificates, load_device_revocations,
    DeliveryError,
};
use crate::device::{
    active_device_certificates, authorization, certificate_views, CertificateView,
    DeviceCertificate, DeviceDeliveryEnvelope, DeviceRevocation, DeviceSession, DeviceSessionView,
    RevocationView,
};
use crate::error::CryptoError;
use crate::identity::IdentityPublicKeyBytes;
use crate::primitives::aead_overruns;
use crate::records::{EventRecord, EventRow, OutboxItem, OutboxRow, OutboxStatus};
use crate::sorted::{is_selection, views};
use crate::states::DeliveryView;
use crate::storage::{outbox_place, OutboxOrder, Storage, StorageView, VersionVector};
use crate::storage_laws::{law_added_events_are_there, law_known_events_are_not_new};
use crate::sync::{
    all_sync_events, are_missing, bring_missing, exchange_at_once, may_sync,
    refuses_as_revoked, sync_authorized_sibling_devices, SyncError, SyncRoundTrip,
};
use crate::text::{decimal, joined, to_decimal};
use crate::wire::{decode, decoding};
use vstd::prelude::*;

verus! {

/// An event of a scene that carries nothing but its place.
pub fn demo_sync_event(device_id: &str, counter: u64, now: u64) -> (event: EventRecord)
    ensures
        event@.device_id == device_id@,
        event@.counter == counter,
        event@.conversation_id == "demo-conversation"@,
        event@.event_type == "message"@,
        event@.message_id == Some(device_id@ + "-"@ + decimal(counter as nat)),
        event@.payload == crate::bytes::utf8(device_id@ + ":"@ + decimal(counter as nat)),
        event@.created_at_unix_secs == now,
{
    let number = to_decimal(counter);
    let id = joined(joined(device_id, "-").as_str(), number.as_str());
    let body = joined(joined(device_id, ":").as_str(), number.as_str());
    EventRecord {
        device_id: copy_text(device_id),
        counter,
        conversation_id: copy_text("demo-conversation"),
        event_type: copy_text("message"),
        message_id: Some(id),
        payload: crate::bytes::copy_bytes(body.as_str().as_bytes()),
        created_at_unix_secs: now,
    }
}

/// What the scene of two replicas that catch up with each other shows.
pub struct SyncScene {
    pub alice_before: VersionVector,
    pub bob_before: VersionVector,
    pub to_alice: Vec<EventRecord>,
    pub to_bob: Vec<EventRecord>,
}

/// First Bob sends what Alice lacks, then Alice what Bob lacks.
pub fn sync_scene(alice: &mut Storage, bob: &mut Storage, conversation_id: &str) -> (shown:
    SyncScene)
    requires
        old(alice).wf(),
        old(bob).wf(),
    ensures
        final(alice).wf(),
        final(bob).wf(),
        shown.alice_before.wf(),
        shown.bob_before.wf(),
        shown.alice_before@ == old(alice)@.vector(conversation_id@),
        shown.bob_before@ == old(bob)@.vector(conversation_id@),
        are_missing(
            views(shown.to_alice@),
            old(bob)@,
            conversation_id@,
            old(alice)@.vector(conversation_id@),
        ),
        final(alice)@ == old(alice)@.with_events(views(shown.to_alice@)),
        are_missing(
            views(shown.to_bob@),
            final(alice)@,
            conversation_id@,
            old(bob)@.vector(conversation_id@),
        ),
        final(bob)@ == old(bob)@.with_events(views(shown.to_bob@)),
{
    let alice_before = alice.version_vector(conversation_id);
    let bob_before = bob.version_vector(conversation_id);
    let to_alice = bring_missing(bob, alice, conversation_id);
    let to_bob = bring_missing(alice, bob, conversation_id);
    SyncScene { alice_before, bob_before, to_alice, to_bob }
}

/// Whether `state` is that of a conversation by all its events that a storage holds.
pub open spec fn shows(
    state: ConversationView,
    storage: StorageView,
    conversation: Seq<char>,
) -> bool {
    exists|events: Seq<EventRow>|
        are_missing(events, storage, conversation, Map::empty()) && #[trigger] is_state_of(
            state,
            events,
        )
}

/// The state of a conversation by all its events that a storage holds.
pub fn current_state(storage: &Storage, conversation_id: &str) -> (state: ConversationState)
    requires
        storage.wf(),
    ensures
        state.wf(),
        shows(state@, storage@, conversation_id@),
{
    let events = all_sync_events(storage, conversation_id);
    let state = materialize_conversation(events.as_slice());
    assert(is_state_of(state@, views(events@)));
    state
}

/// Whether two storages agree on every event that both have.
pub open spec fn agree(left: StorageView, right: StorageView) -> bool {
    forall|k: (Seq<char>, u64)|
        left.events.contains_key(k) && right.events.contains_key(k) ==> #[trigger] left.events[k]
            == #[trigger] right.events[k]
}

/// Whether the events of a conversation in a storage do not contradict each other.
pub open spec fn has_coherent_events(storage: StorageView, conversation: Seq<char>) -> bool {
    forall|events: Seq<EventRow>| #[trigger]
        are_missing(events, storage, conversation, Map::empty()) ==> is_coherent(events)
}

/// What the scene of two replicas that converge shows.
pub struct ConvergenceScene {
    pub left_before: ConversationState,
    pub right_before: ConversationState,
    pub left_after: ConversationState,
    pub right_after: ConversationState,
}

/// Whether two storages have sent each other the events of a conversation that the other
/// lacked.
pub open spec fn were_exchanged(
    left: StorageView,
    right: StorageView,
    left_after: StorageView,
    right_after: StorageView,
    conversation: Seq<char>,
) -> bool {
    exists|left_to_right: Seq<EventRow>, right_to_left: Seq<EventRow>|
        {
            &&& #[trigger] are_missing(
                left_to_right,
                left,
                conversation,
                right.vector(conversation),
            )
            &&& #[trigger] are_missing(
                right_to_left,
                right,
                conversation,
                left.vector(conversation),
            )
            &&& left_after == left.with_events(right_to_left)
            &&& right_after == right.with_events(left_to_right)
        }
}

/// Two replicas exchange what they lack, and show the same state from then on.
pub fn convergence_scene(left: &mut Storage, right: &mut Storage, conversation_id: &str) -> (shown:
    ConvergenceScene)
    requires
        old(left).wf(),
        old(right).wf(),
    ensures
        final(left).wf(),
        final(right).wf(),
        were_exchanged(
            old(left)@,
            old(right)@,
            final(left)@,
            final(right)@,
            conversation_id@,
        ),
        shows(shown.left_before@, old(left)@, conversation_id@),
        shows(shown.right_before@, old(right)@, conversation_id@),
        shows(shown.left_after@, final(left)@, conversation_id@),
        shows(shown.right_after@, final(right)@, conversation_id@),
        agree(old(left)@, old(right)@) && has_coherent_events(final(left)@, conversation_id@)
            ==> shown.left_after@ == shown.right_after@,
{
    let left_before = current_state(left, conversation_id);
    let right_before = current_state(right, conversation_id);
    let trip = exchange_at_once(left, right, conversation_id);
    let left_after = current_state(left, conversation_id);
    let right_after = current_state(right, conversation_id);
    proof {
        if agree(old(left)@, old(right)@) && has_coherent_events(left@, conversation_id@) {
            let left_events = choose|events: Seq<EventRow>|
                {
                    &&& are_missing(events, left@, conversation_id@, Map::empty())
                    &&& #[trigger] is_state_of(left_after@, events)
                };
            let right_events = choose|events: Seq<EventRow>|
                {
                    &&& are_missing(events, right@, conversation_id@, Map::empty())
                    &&& #[trigger] is_state_of(right_after@, events)
                };
            law_exchange_at_once_converges(
                old(left)@,
                old(right)@,
                conversation_id@,
                views(trip.left_to_right@),
                views(trip.right_to_left@),
                left_events,
                right_events,
                left_after@,
                right_after@,
            );
        }
    }
    ConvergenceScene { left_before, right_before, left_after, right_after }
}

/// What the scene of two devices of one account shows.
pub struct OwnDevicesScene {
    pub trip: SyncRoundTrip,
    pub duplicates: usize,
    pub left_state: ConversationState,
    pub right_state: ConversationState,
}

/// Two devices of one account exchange what they lack. What one of them is sent a second
/// time is not taken in again, and both show the same state.
pub fn own_devices_scene(
    account_public_key: IdentityPublicKeyBytes,
    left_certificate: &DeviceCertificate,
    right_certificate: &DeviceCertificate,
    revocations: &[DeviceRevocation],
    left: &mut Storage,
    right: &mut Storage,
    conversation_id: &str,
) -> (shown: Result<OwnDevicesScene, SyncError>)
    requires
        old(left).wf(),
        old(right).wf(),
    ensures
        final(left).wf(),
        final(right).wf(),
        shown is Ok <==> may_sync(
            account_public_key@,
            *left_certificate,
            *right_certificate,
            revocations@,
        ),
        shown matches Err(error) ==> {
            &&& final(left)@ == old(left)@
            &&& final(right)@ == old(right)@
            &&& error == if refuses_as_revoked(
                account_public_key@,
                *left_certificate,
                *right_certificate,
                revocations@,
            ) {
                SyncError::Revoked
            } else {
                SyncError::Crypto(CryptoError::SignatureVerification)
            }
        },
        shown matches Ok(shown) ==> {
            let synced = old(right)@.with_events(views(shown.trip.left_to_right@));
            &&& shown.duplicates == 0
            &&& are_missing(
                views(shown.trip.left_to_right@),
                old(left)@,
                conversation_id@,
                old(right)@.vector(conversation_id@),
            )
            &&& are_missing(
                views(shown.trip.right_to_left@),
                synced,
                conversation_id@,
                old(left)@.vector(conversation_id@),
            )
            &&& final(right)@ == synced.with_events(views(shown.trip.left_to_right@))
            &&& final(right)@.events == synced.events
            &&& shows(shown.left_state@, final(left)@, conversation_id@)
            &&& shows(shown.right_state@, final(right)@, conversation_id@)
            &&& final(left)@ == old(left)@.with_events(views(shown.trip.right_to_left@))
            &&& agree(old(left)@, old(right)@) && has_coherent_events(
                final(left)@,
                conversation_id@,
            ) ==> shown.left_state@ == shown.right_state@
        },
{
    let trip = match sync_authorized_sibling_devices(
        account_public_key,
        left_certificate,
        right_certificate,
        revocations,
        left,
        right,
        conversation_id,
    ) {
        Ok(trip) => trip,
        Err(error) => {
            return Err(error);
        },
    };
    let ghost synced = right@;
    proof {
        law_added_events_are_there(old(right)@, views(trip.left_to_right@));
        law_known_events_are_not_new(synced, views(trip.left_to_right@));
    }
    let duplicates: usize = right.append_events(trip.left_to_right.as_slice());
    let left_state = current_state(left, conversation_id);
    let right_state = current_state(right, conversation_id);
    proof {
        if agree(old(left)@, old(right)@) && has_coherent_events(left@, conversation_id@) {
            let left_events = choose|events: Seq<EventRow>|
                {
                    &&& are_missing(events, left@, conversation_id@, Map::empty())
                    &&& #[trigger] is_state_of(left_state@, events)
                };
            let right_events = choose|events: Seq<EventRow>|
                {
                    &&& are_missing(events, right@, conversation_id@, Map::empty())
                    &&& #[trigger] is_state_of(right_state@, events)
                };
            assert(are_missing(right_events, synced, conversation_id@, Map::empty()));
            law_synced_replicas_converge(
                old(left)@,
                old(right)@,
                conversation_id@,
                views(trip.left_to_right@),
                views(trip.right_to_left@),
                left_events,
                right_events,
                left_state@,
                right_state@,
            );
        }
    }
    Ok(OwnDevicesScene { trip, duplicates, left_state, right_state })
}

/// The first of the items that wait which is for a recipient.
pub open spec fn first_for(items: Seq<OutboxRow>, recipient: Seq<char>) -> Option<OutboxRow>
    decreases items.len(),
{
    if items.len() == 0 {
        None
    } else if items[0].recipient_id == recipient {
        Some(items[0])
    } else {
        first_for(items.drop_first(), recipient)
    }
}

/// The oldest item of the outbox that waits for a recipient.
pub fn first_pending_for(storage: &Storage, recipient_id: &str) -> (item: Option<OutboxItem>)
    requires
        storage.wf(),
    ensures
        exists|items: Seq<OutboxRow>|
            {
                &&& is_selection::<Seq<char>, OutboxRow, OutboxOrder>(
                    items,
                    storage@.outbox,
                    outbox_place(OutboxStatus::Pending),
                )
                &&& match item {
                    Some(item) => #[trigger] first_for(items, recipient_id@) == Some(item@),
                    None => first_for(items, recipient_id@) is None,
                }
            },
{
    let items = storage.pending_outbox_items();
    let ghost rows = views(items@);
    let mut i: usize = 0;
    assert(rows.skip(0) =~= rows);
    while i < items.len()
        invariant
            i <= items@.len(),
            rows == views(items@),
            is_selection::<Seq<char>, OutboxRow, OutboxOrder>(
                rows,
                storage@.outbox,
                outbox_place(OutboxStatus::Pending),
            ),
            first_for(rows, recipient_id@) == first_for(rows.skip(i as int), recipient_id@),
        decreases items@.len() - i,
    {
        assert(rows.skip(i as int)[0] == items@[i as int]@);
        assert(rows.skip(i as int).drop_first() =~= rows.skip(i + 1));
        if same_text(items[i].recipient_id.as_str(), recipient_id) {
            return Some(crate::sorted::Record::duplicate(&items[i]));
        }
        i += 1;
    }
    assert(rows.skip(i as int) =~= Seq::<OutboxRow>::empty());
    assert(first_for(rows, recipient_id@) is None);
    None
}

/// What a device makes of the oldest delivery that waits for it.
#[derive(Debug, Clone, PartialEq, Eq)]
pub enum PendingRead {
    /// Nothing waits.
    Nothing,
    /// The text of the delivery, which counts as confirmed.
    Read(String),
    Refused(DeliveryError),
}

/// Whether a delivery is on its way between the two devices of a session, to the one that
/// holds it.
pub open spec fn is_expected(receiver: DeviceSessionView, delivery: DeliveryView) -> bool {
    &&& delivery.recipient_device_id == receiver.local_device_id
    &&& delivery.sender_device_id == receiver.remote_device_id
}

/// Whether a delivery is past the end of a session's message counter or of the cipher's
/// block counter.
pub open spec fn is_past_counters(receiver: DeviceSessionView, delivery: DeliveryView) -> bool {
    &&& is_expected(receiver, delivery)
    &&& {
        ||| !receiver.session.can_receive(delivery.message)
        ||| aead_overruns(delivery.message.ciphertext.len() - 16)
    }
}

/// A device reads the oldest delivery that waits for it, and confirms it.
pub fn read_pending_delivery(storage: &mut Storage, receiver: &mut DeviceSession, now: u64) -> (read:
    PendingRead)
    requires
        old(storage).wf(),
    ensures
        final(storage).wf(),
        exists|items: Seq<OutboxRow>|
            {
                &&& is_selection::<Seq<char>, OutboxRow, OutboxOrder>(
                    items,
                    old(storage)@.outbox,
                    outbox_place(OutboxStatus::Pending),
                )
                &&& is_pending_read(
                    old(storage)@,
                    final(storage)@,
                    old(receiver)@,
                    final(receiver)@,
                    #[trigger] first_for(items, old(receiver)@.local_device_id),
                    read,
                    now,
                )
            },
{
    let item = match first_pending_for(storage, receiver.local_device_id()) {
        Some(item) => item,
        None => {
            return PendingRead::Nothing;
        },
    };
    let envelope = match decode::<DeviceDeliveryEnvelope>(item.payload.as_slice()) {
        Some(envelope) => envelope,
        None => {
            return PendingRead::Refused(DeliveryError::Malformed);
        },
    };
    if !receiver.can_decrypt(&envelope) {
        return PendingRead::Refused(DeliveryError::Malformed);
    }
    match receiver.decrypt(&envelope) {
        Ok(text) => {
            storage.mark_outbox_delivered_at(item.message_id.as_str(), now);
            PendingRead::Read(text)
        },
        Err(error) => PendingRead::Refused(DeliveryError::Crypto(error)),
    }
}

/// Whether `read` is what a device makes of the delivery that waits for it.
pub open spec fn is_pending_read(
    before: StorageView,
    after: StorageView,
    receiver: DeviceSessionView,
    receiver_after: DeviceSessionView,
    item: Option<OutboxRow>,
    read: PendingRead,
    now: u64,
) -> bool {
    match item {
        None => read is Nothing && after == before && receiver_after == receiver,
        Some(item) => match decoding::<DeviceDeliveryEnvelope>(item.payload) {
            Some(delivery) => if is_past_counters(receiver, delivery) {
                &&& read == PendingRead::Refused(DeliveryError::Malformed)
                &&& after == before
                &&& receiver_after == receiver
            } else if !is_expected(receiver, delivery) {
                &&& read == PendingRead::Refused(DeliveryError::Crypto(CryptoError::Decrypt))
                &&& after == before
                &&& receiver_after == receiver
            } else {
                let (session, text) = receiver.session.receiving(delivery.message);
                &&& receiver_after == (DeviceSessionView { session, ..receiver })
                &&& match text {
                    Ok(text) => {
                        &&& read matches PendingRead::Read(shown) && shown@ == text
                        &&& after == before.with_outbox_delivered(item.message_id, now)
                    },
                    Err(error) => {
                        &&& read == PendingRead::Refused(DeliveryError::Crypto(error))
                        &&& after == before
                    },
                }
            },
            None => {
                &&& read == PendingRead::Refused(DeliveryError::Malformed)
                &&& after == before
                &&& receiver_after == receiver
            },
        },
    }
}

/// The devices of an account that may be written to, by what a storage holds of its
/// certificates and revocations.
pub fn active_devices(
    storage: &Storage,
    account_id: &str,
    account_public_key: IdentityPublicKeyBytes,
) -> (active: Result<Vec<DeviceCertificate>, DeliveryError>)
    requires
        storage.wf(),
    ensures
        is_active_list(storage@, account_id@, account_public_key@, active_list(active)),
        active matches Err(error) ==> error == DeliveryError::Malformed || error
            == DeliveryError::Crypto(CryptoError::SignatureVerification),
{
    let certificates = match load_device_certificates(storage, account_id) {
        Some(certificates) => certificates,
        None => {
            assert(are_active(None, account_public_key@, None, None));
            return Err(DeliveryError::Malformed);
        },
    };
    let revocations = match load_device_revocations(storage, account_id) {
        Some(revocations) => revocations,
        None => {
            assert(are_active(
                None,
                account_public_key@,
                Some(views(certificates@)),
                None,
            ));
            return Err(DeliveryError::Malformed);
        },
    };
    match active_device_certificates(
        account_public_key,
        certificates.as_slice(),
        revocations.as_slice(),
    ) {
        Ok(active) => {
            proof {
                assert(views(certificates@) =~= certificate_views(certificates@));
                assert(are_active(
                    Some(certificate_views(active@)),
                    account_public_key@,
                    Some(certificate_views(certificates@)),
                    Some(revocations@),
                ));
            }
            Ok(active)
        },
        Err(error) => {
            proof {
                assert(views(certificates@) =~= certificate_views(certificates@));
                let i = choose|i: int|
                    0 <= i < certificates@.len() && authorization(
                        account_public_key@,
                        (#[trigger] certificates@[i])@,
                        revocations@,
                    ) is None;
                assert(certificate_views(certificates@)[i] == certificates@[i]@);
                assert(are_active(
                    None,
                    account_public_key@,
                    Some(certificate_views(certificates@)),
                    Some(revocations@),
                ));
            }
            Err(DeliveryError::Crypto(error))
        },
    }
}

pub open spec fn active_list(active: Result<Vec<DeviceCertificate>, DeliveryError>) -> Option<
    Seq<CertificateView>,
> {
    match active {
        Ok(active) => Some(certificate_views(active@)),
        Err(_) => None,
    }
}

/// Whether `active` are those of the certificates whose devices may be written to; `None`
/// where certificates or revocations cannot be read or were not issued by the account.
pub open spec fn are_active(
    active: Option<Seq<CertificateView>>,
    account: Seq<u8>,
    certificates: Option<Seq<CertificateView>>,
    revocations: Option<Seq<DeviceRevocation>>,
) -> bool {
    match (certificates, revocations) {
        (Some(certificates), Some(revocations)) => match active {
            Some(active) => active == certificates.filter(
                |certificate: CertificateView|
                    authorization(account, certificate, revocations) == Some(true),
            ),
            None => exists|i: int|
                0 <= i < certificates.len() && authorization(
                    account,
                    #[trigger] certificates[i],
                    revocations,
                ) is None,
        },
        _ => active is None,
    }
}

pub open spec fn revocation_views(revocations: Option<Seq<DeviceRevocation>>) -> Option<
    Seq<RevocationView>,
> {
    match revocations {
        Some(revocations) => Some(views(revocations)),
        None => None,
    }
}

/// Whether `active` are the devices of an account that may be written to, by what a
/// storage holds.
pub open spec fn is_active_list(
    storage: StorageView,
    account_id: Seq<char>,
    account: Seq<u8>,
    active: Option<Seq<CertificateView>>,
) -> bool {
    exists|
        certificates: Option<Seq<CertificateView>>,
        revocations: Option<Seq<DeviceRevocation>>,
    |
        {
            &&& holds_certificates(storage, account_id, certificates)
            &&& (certificates is Some ==> holds_revocations(
                storage,
                account_id,
                revocation_views(revocations),
            ))
            &&& #[trigger] are_active(active, account, certificates, revocations)
        }
}

} // verus!
