//! Sending each other the events that the other side lacks.

use crate::device::{
    authorization, is_device_currently_authorized, verify_authorized_sibling_devices,
    DeviceCertificate, DeviceRevocation,
};
use crate::error::CryptoError;
use crate::identity::IdentityPublicKeyBytes;
use crate::records::{EventRecord, EventRow};
use crate::sorted::{is_selection, views, SortedMap};
use crate::storage::{missing_place, EventOrder, Storage, StorageView, VersionVector};
use crate::text::{decimal, joined, to_decimal};
use crate::wire::{decode, decoding, encode, is_form_of, Listing};
use vstd::prelude::*;

verus! {

/// Why two devices do not exchange events.
#[derive(Debug, Clone, PartialEq, Eq, Structural)]
pub enum SyncError {
    Crypto(CryptoError),
    Revoked,
    Malformed,
}

impl SyncError {
    pub open spec fn name(self) -> Seq<char> {
        match self {
            SyncError::Crypto(error) => error.name(),
            SyncError::Revoked => "sibling device is revoked"@,
            SyncError::Malformed => "malformed sync response"@,
        }
    }

    pub fn message(&self) -> (text: &'static str)
        ensures
            text@ == self.name(),
    {
        match self {
            SyncError::Crypto(error) => error.message(),
            SyncError::Revoked => "sibling device is revoked",
            SyncError::Malformed => "malformed sync response",
        }
    }
}

/// The events that went each way.
pub struct SyncRoundTrip {
    pub left_to_right: Vec<EventRecord>,
    pub right_to_left: Vec<EventRecord>,
}

/// Whether `events` are those of a conversation that a version vector does not cover.
pub open spec fn are_missing(
    events: Seq<EventRow>,
    storage: StorageView,
    conversation: Seq<char>,
    vector: Map<Seq<char>, u64>,
) -> bool {
    is_selection::<(Seq<char>, u64), EventRow, EventOrder>(
        events,
        storage.events,
        missing_place(conversation, vector),
    )
}

/// The answer to a request for the events that a version vector does not cover, in its
/// binary form.
pub fn sync_response(storage: &Storage, conversation_id: &str, vector: &VersionVector) -> (bytes:
    Vec<u8>)
    requires
        storage.wf(),
        vector.wf(),
    ensures
        exists|events: Seq<EventRow>|
            are_missing(events, storage@, conversation_id@, vector@) && #[trigger] is_form_of::<
                Listing<EventRecord>,
            >(bytes@, events),
{
    let events = Listing { items: storage.missing_events_for(conversation_id, vector) };
    let bytes = encode(&events);
    assert(are_missing(events@, storage@, conversation_id@, vector@));
    bytes
}

/// Takes in the events of an answer, and hands them back.
pub fn apply_sync_response(storage: &mut Storage, bytes: &[u8]) -> (applied: Option<
    Vec<EventRecord>,
>)
    requires
        old(storage).wf(),
    ensures
        final(storage).wf(),
        match applied {
            Some(events) => {
                &&& decoding::<Listing<EventRecord>>(bytes@) == Some(views(events@))
                &&& final(storage)@ == old(storage)@.with_events(views(events@))
            },
            None => decoding::<Listing<EventRecord>>(bytes@) is None && final(storage)@ == old(
                storage,
            )@,
        },
{
    match decode::<Listing<EventRecord>>(bytes) {
        Some(events) => {
            storage.append_events(events.items.as_slice());
            Some(events.items)
        },
        None => None,
    }
}

/// Brings the events of a conversation from one storage to another that lacks them.
pub fn bring_missing(source: &Storage, target: &mut Storage, conversation_id: &str) -> (brought:
    Vec<EventRecord>)
    requires
        source.wf(),
        old(target).wf(),
    ensures
        final(target).wf(),
        are_missing(
            views(brought@),
            source@,
            conversation_id@,
            old(target)@.vector(conversation_id@),
        ),
        final(target)@ == old(target)@.with_events(views(brought@)),
{
    let vector = target.version_vector(conversation_id);
    let bytes = sync_response(source, conversation_id, &vector);
    match apply_sync_response(target, bytes.as_slice()) {
        Some(events) => events,
        None => Vec::new(),
    }
}

/// Two storages send each other the events of a conversation that the other lacks, by the
/// version vectors that both have at the start.
pub fn exchange_at_once(left: &mut Storage, right: &mut Storage, conversation_id: &str) -> (trip:
    SyncRoundTrip)
    requires
        old(left).wf(),
        old(right).wf(),
    ensures
        final(left).wf(),
        final(right).wf(),
        are_missing(
            views(trip.left_to_right@),
            old(left)@,
            conversation_id@,
            old(right)@.vector(conversation_id@),
        ),
        are_missing(
            views(trip.right_to_left@),
            old(right)@,
            conversation_id@,
            old(left)@.vector(conversation_id@),
        ),
        final(left)@ == old(left)@.with_events(views(trip.right_to_left@)),
        final(right)@ == old(right)@.with_events(views(trip.left_to_right@)),
{
    let left_vector = left.version_vector(conversation_id);
    let right_vector = right.version_vector(conversation_id);
    let right_to_left = right.missing_events_for(conversation_id, &left_vector);
    let left_to_right = left.missing_events_for(conversation_id, &right_vector);
    left.append_events(right_to_left.as_slice());
    right.append_events(left_to_right.as_slice());
    SyncRoundTrip { left_to_right, right_to_left }
}

/// Two devices of one account, neither of them revoked, send each other the events of a
/// conversation that the other lacks.
pub fn sync_authorized_sibling_devices(
    account_public_key: IdentityPublicKeyBytes,
    left_certificate: &DeviceCertificate,
    right_certificate: &DeviceCertificate,
    revocations: &[DeviceRevocation],
    left: &mut Storage,
    right: &mut Storage,
    conversation_id: &str,
) -> (synced: Result<SyncRoundTrip, SyncError>)
    requires
        old(left).wf(),
        old(right).wf(),
    ensures
        final(left).wf(),
        final(right).wf(),
        match synced {
            Ok(trip) => {
                &&& may_sync(
                    account_public_key@,
                    *left_certificate,
                    *right_certificate,
                    revocations@,
                )
                &&& are_missing(
                    views(trip.left_to_right@),
                    old(left)@,
                    conversation_id@,
                    old(right)@.vector(conversation_id@),
                )
                &&& final(right)@ == old(right)@.with_events(views(trip.left_to_right@))
                &&& are_missing(
                    views(trip.right_to_left@),
                    final(right)@,
                    conversation_id@,
                    old(left)@.vector(conversation_id@),
                )
                &&& final(left)@ == old(left)@.with_events(views(trip.right_to_left@))
            },
            Err(error) => {
                &&& !may_sync(
                    account_public_key@,
                    *left_certificate,
                    *right_certificate,
                    revocations@,
                )
                &&& final(left)@ == old(left)@
                &&& final(right)@ == old(right)@
                &&& error == if refuses_as_revoked(
                    account_public_key@,
                    *left_certificate,
                    *right_certificate,
                    revocations@,
                ) {
                    SyncError::Revoked
                } else {
                    SyncError::Crypto(CryptoError::SignatureVerification)
                }
            },
        },
{
    if let Err(error) = verify_authorized_sibling_devices(
        account_public_key,
        left_certificate,
        right_certificate,
    ) {
        return Err(SyncError::Crypto(error));
    }
    match is_device_currently_authorized(account_public_key, left_certificate, revocations) {
        Err(error) => {
            return Err(SyncError::Crypto(error));
        },
        Ok(false) => {
            return Err(SyncError::Revoked);
        },
        Ok(true) => {},
    }
    match is_device_currently_authorized(account_public_key, right_certificate, revocations) {
        Err(error) => {
            return Err(SyncError::Crypto(error));
        },
        Ok(false) => {
            return Err(SyncError::Revoked);
        },
        Ok(true) => {},
    }
    let left_to_right = bring_missing(left, right, conversation_id);
    let right_to_left = bring_missing(right, left, conversation_id);
    Ok(SyncRoundTrip { left_to_right, right_to_left })
}

/// Whether two certificates are of two different devices of the account.
pub open spec fn are_siblings(
    account: Seq<u8>,
    left: DeviceCertificate,
    right: DeviceCertificate,
) -> bool {
    &&& left@.is_issued_by(account)
    &&& right@.is_issued_by(account)
    &&& left.device_id@ != right.device_id@
}

/// Whether two devices may exchange events.
pub open spec fn may_sync(
    account: Seq<u8>,
    left: DeviceCertificate,
    right: DeviceCertificate,
    revocations: Seq<DeviceRevocation>,
) -> bool {
    &&& are_siblings(account, left, right)
    &&& authorization(account, left@, revocations) == Some(true)
    &&& authorization(account, right@, revocations) == Some(true)
}

/// Whether two devices of the account do not exchange events because one is revoked; the
/// left one is looked at first.
pub open spec fn refuses_as_revoked(
    account: Seq<u8>,
    left: DeviceCertificate,
    right: DeviceCertificate,
    revocations: Seq<DeviceRevocation>,
) -> bool {
    &&& are_siblings(account, left, right)
    &&& authorization(account, left@, revocations) == Some(false) || (authorization(
        account,
        left@,
        revocations,
    ) == Some(true) && authorization(account, right@, revocations) == Some(false))
}

/// All events of a conversation.
pub fn all_sync_events(storage: &Storage, conversation_id: &str) -> (events: Vec<EventRecord>)
    requires
        storage.wf(),
    ensures
        are_missing(views(events@), storage@, conversation_id@, Map::empty()),
{
    let nothing: VersionVector = SortedMap::new();
    storage.missing_events_for(conversation_id, &nothing)
}

/// Where events stand: the device of each and its count.
pub open spec fn positions(events: Seq<EventRow>) -> Seq<Seq<char>> {
    events.map_values(|event: EventRow| event.device_id + ":"@ + decimal(event.counter as nat))
}

/// Where the events stand: the device of each and its count.
pub fn event_positions(events: &Vec<EventRecord>) -> (texts: Vec<String>)
    ensures
        views(texts@) == positions(views(events@)),
{
    let mut texts: Vec<String> = Vec::new();
    let mut i: usize = 0;
    while i < events.len()
        invariant
            i <= events@.len(),
            texts@.len() == i,
            forall|j: int|
                0 <= j < i ==> (#[trigger] texts@[j])@ == positions(views(events@))[j],
        decreases events@.len() - i,
    {
        let device = joined(events[i].device_id.as_str(), ":");
        texts.push(joined(device.as_str(), to_decimal(events[i].counter).as_str()));
        i += 1;
    }
    assert(views(texts@) =~= positions(views(events@)));
    texts
}

/// A revoked device is never synced with: neither side changes.
pub proof fn law_revoked_device_is_not_synced(
    account: Seq<u8>,
    left: DeviceCertificate,
    right: DeviceCertificate,
    revocations: Seq<DeviceRevocation>,
)
    requires
        authorization(account, left@, revocations) != Some(true) || authorization(
            account,
            right@,
            revocations,
        ) != Some(true),
    ensures
        !may_sync(account, left, right, revocations),
{
}

} // verus!
