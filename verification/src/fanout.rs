//! Writing to all devices of an account: one session and one delivery for each.

use crate::bytes::{same_text, utf8};
use crate::delivery::{encrypt_and_queue_device_delivery, with_device_delivery};
use crate::device::{
    authorization, law_revoked_device_is_not_authorized, AccountIdentity, AccountView,
    CertificateView, DeviceCertificate, DeviceDeliveryEnvelope, DeviceIdentity, DeviceRevocation,
    DeviceSession, DeviceSessionView, DeviceView,
};
use crate::error::CryptoError;
use crate::identity::IdentityPublicKeyBytes;
use crate::primitives::aead_overruns;
use crate::ratchet::{aead_key, secrets_agree};
use crate::session::{is_sent, RatchetRole, SessionView};
use crate::sorted::views;
use crate::states::{is_device_session_form, DeliveryView};
use crate::storage::{DeviceRow, Storage, StorageView};
use crate::wire::{encode, is_form_of};
use vstd::prelude::*;

verus! {

/// The session that a device starts towards the device of a certificate.
pub open spec fn outbound_session(device: DeviceView, certificate: CertificateView) -> DeviceSessionView {
    DeviceSessionView {
        local_device_id: device.device_id,
        remote_device_id: certificate.device_id,
        session: SessionView::start(
            aead_key(device.x25519_private_key, certificate.x25519_public_key),
            RatchetRole::Alice,
            device.x25519_private_key,
            certificate.x25519_public_key,
        ),
    }
}

/// Starts a session towards each device of an account, by its certificate.
pub fn open_device_sessions(
    device: &DeviceIdentity,
    account_public_key: IdentityPublicKeyBytes,
    certificates: &Vec<DeviceCertificate>,
) -> (sessions: Result<Vec<DeviceSession>, CryptoError>)
    ensures
        match sessions {
            Ok(sessions) => {
                &&& sessions@.len() == certificates@.len()
                &&& forall|i: int|
                    0 <= i < certificates@.len() ==> {
                        &&& (#[trigger] certificates@[i])@.is_issued_by(account_public_key@)
                        &&& sessions@[i]@ == outbound_session(device@, certificates@[i]@)
                    }
            },
            Err(error) => {
                &&& error == CryptoError::SignatureVerification
                &&& exists|i: int|
                    0 <= i < certificates@.len() && !(#[trigger] certificates@[i])@.is_issued_by(
                        account_public_key@,
                    )
            },
        },
{
    let mut sessions: Vec<DeviceSession> = Vec::new();
    let mut i: usize = 0;
    while i < certificates.len()
        invariant
            i <= certificates@.len(),
            sessions@.len() == i,
            forall|j: int|
                0 <= j < i ==> {
                    &&& (#[trigger] certificates@[j])@.is_issued_by(account_public_key@)
                    &&& sessions@[j]@ == outbound_session(device@, certificates@[j]@)
                },
        decreases certificates@.len() - i,
    {
        match device.create_outbound_session(account_public_key, &certificates[i]) {
            Ok(session) => {
                sessions.push(session);
            },
            Err(error) => {
                assert(!certificates@[i as int]@.is_issued_by(account_public_key@));
                return Err(error);
            },
        }
        i += 1;
    }
    Ok(sessions)
}

/// The place of the session towards a device, the first if there are several.
pub fn session_for(sessions: &Vec<DeviceSession>, device_id: &str) -> (place: Option<usize>)
    ensures
        match place {
            Some(i) => {
                &&& i < sessions@.len()
                &&& sessions@[i as int]@.remote_device_id == device_id@
                &&& forall|j: int|
                    0 <= j < i ==> (#[trigger] sessions@[j])@.remote_device_id != device_id@
            },
            None => forall|j: int|
                0 <= j < sessions@.len() ==> (#[trigger] sessions@[j])@.remote_device_id
                    != device_id@,
        },
{
    let mut i: usize = 0;
    while i < sessions.len()
        invariant
            i <= sessions@.len(),
            forall|j: int| 0 <= j < i ==> (#[trigger] sessions@[j])@.remote_device_id != device_id@,
        decreases sessions@.len() - i,
    {
        if same_text(sessions[i].remote_device_id(), device_id) {
            return Some(i);
        }
        i += 1;
    }
    None
}

/// A storage after deliveries to devices were queued, one for each session in turn.
pub open spec fn with_deliveries(
    storage: StorageView,
    sessions: Seq<DeviceSessionView>,
    envelopes: Seq<DeliveryView>,
    states: Seq<Seq<u8>>,
    payloads: Seq<Seq<u8>>,
    now: u64,
) -> StorageView
    decreases envelopes.len(),
{
    if envelopes.len() == 0 {
        storage
    } else {
        let last = envelopes.len() - 1;
        with_device_delivery(
            with_deliveries(
                storage,
                sessions,
                envelopes.drop_last(),
                states,
                payloads,
                now,
            ),
            sessions[last],
            states[last],
            envelopes[last],
            payloads[last],
            now,
        )
    }
}

/// Whether `envelope` says `text` on a session.
pub open spec fn is_delivery_on(
    envelope: DeliveryView,
    session: DeviceSessionView,
    logical_message_id: Seq<char>,
    text: Seq<char>,
) -> bool {
    &&& envelope.logical_message_id == logical_message_id
    &&& envelope.sender_device_id == session.local_device_id
    &&& envelope.recipient_device_id == session.remote_device_id
    &&& is_sent(session.session, envelope.message, text)
}

/// Whether binary forms stand for sessions and envelopes.
pub open spec fn are_stored_as(
    sessions: Seq<DeviceSessionView>,
    envelopes: Seq<DeliveryView>,
    states: Seq<Seq<u8>>,
    payloads: Seq<Seq<u8>>,
) -> bool {
    &&& states.len() == envelopes.len()
    &&& payloads.len() == envelopes.len()
    &&& forall|i: int|
        0 <= i < envelopes.len() ==> {
            &&& #[trigger] is_device_session_form(states[i], sessions[i])
            &&& is_form_of::<DeviceDeliveryEnvelope>(payloads[i], envelopes[i])
        }
}

/// Whether `after` is `before` with the deliveries queued that these sessions wrote, and
/// with each session kept as it is.
pub open spec fn were_queued(
    before: StorageView,
    after: StorageView,
    sessions: Seq<DeviceSessionView>,
    envelopes: Seq<DeliveryView>,
    now: u64,
) -> bool {
    exists|states: Seq<Seq<u8>>, payloads: Seq<Seq<u8>>|
        #[trigger] are_stored_as(sessions, envelopes, states, payloads) && after
            == with_deliveries(before, sessions, envelopes, states, payloads, now)
}

/// Encrypts one message for each device with a session, and queues a delivery for each.
/// All deliveries carry the message's own id; each is encrypted on its own session.
pub fn fan_out(
    storage: &mut Storage,
    sessions: Vec<DeviceSession>,
    logical_message_id: &str,
    plaintext: &str,
    now: u64,
) -> (sent: (Vec<DeviceSession>, Vec<DeviceDeliveryEnvelope>))
    requires
        old(storage).wf(),
        forall|i: int| 0 <= i < sessions@.len() ==> (#[trigger] sessions@[i])@.session.can_send(),
        utf8(plaintext@).len() < 64 * 0xffff_ffff,
        !aead_overruns(utf8(plaintext@).len() as int),
    ensures
        final(storage).wf(),
        sent.0@.len() == sessions@.len(),
        sent.1@.len() == sessions@.len(),
        forall|i: int|
            0 <= i < sessions@.len() ==> {
                &&& (#[trigger] sent.0@[i])@ == (DeviceSessionView {
                    session: sessions@[i]@.session.send_advanced(),
                    ..sessions@[i]@
                })
                &&& is_delivery_on(
                    sent.1@[i]@,
                    sessions@[i]@,
                    logical_message_id@,
                    plaintext@,
                )
            },
        were_queued(old(storage)@, final(storage)@, views(sent.0@), views(sent.1@), now),
{
    let ghost start = sessions@;
    let mut rest = sessions;
    let mut advanced: Vec<DeviceSession> = Vec::new();
    let mut envelopes: Vec<DeviceDeliveryEnvelope> = Vec::new();
    let ghost mut states: Seq<Seq<u8>> = Seq::empty();
    let ghost mut payloads: Seq<Seq<u8>> = Seq::empty();
    let total: usize = rest.len();
    let mut i: usize = 0;
    assert(rest@ =~= start.skip(0));
    assert(views(envelopes@) =~= Seq::<DeliveryView>::empty());
    while i < total
        invariant
            storage.wf(),
            i <= total,
            total == start.len(),
            rest@ == start.skip(i as int),
            advanced@.len() == i,
            envelopes@.len() == i,
            states.len() == i,
            payloads.len() == i,
            utf8(plaintext@).len() < 64 * 0xffff_ffff,
            !aead_overruns(utf8(plaintext@).len() as int),
            forall|j: int| 0 <= j < start.len() ==> (#[trigger] start[j])@.session.can_send(),
            forall|j: int|
                0 <= j < i ==> {
                    &&& (#[trigger] advanced@[j])@ == (DeviceSessionView {
                        session: start[j]@.session.send_advanced(),
                        ..start[j]@
                    })
                    &&& is_delivery_on(
                        envelopes@[j]@,
                        start[j]@,
                        logical_message_id@,
                        plaintext@,
                    )
                },
            are_stored_as(views(advanced@), views(envelopes@), states, payloads),
            storage@ == with_deliveries(
                old(storage)@,
                views(advanced@),
                views(envelopes@),
                states,
                payloads,
                now,
            ),
        decreases total - i,
    {
        let ghost before = storage@;
        let ghost done = advanced@;
        let ghost told = views(envelopes@);
        let mut session = rest.remove(0);
        proof {
            assert(rest@ =~= start.skip(i + 1));
            assert(session@ == start[i as int]@);
        }
        match encrypt_and_queue_device_delivery(
            storage,
            &mut session,
            logical_message_id,
            plaintext,
            now,
        ) {
            Ok(envelope) => {
                proof {
                    let (state, payload) = choose|state: Seq<u8>, payload: Seq<u8>|
                        {
                            &&& is_device_session_form(state, session@)
                            &&& is_form_of::<DeviceDeliveryEnvelope>(payload, envelope@)
                            &&& storage@ == #[trigger] with_device_delivery(
                                before,
                                session@,
                                state,
                                envelope@,
                                payload,
                                now,
                            )
                        };
                    let old_states = states;
                    let old_payloads = payloads;
                    states = states.push(state);
                    payloads = payloads.push(payload);
                    let views_now = views(done).push(session@);
                    let told_now = told.push(envelope@);
                    assert(told_now.drop_last() =~= told);
                    lemma_deliveries_by_prefix(
                        old(storage)@,
                        views(done),
                        views_now,
                        told,
                        old_states,
                        states,
                        old_payloads,
                        payloads,
                        now,
                    );
                    assert forall|j: int| 0 <= j < told_now.len() implies {
                        &&& #[trigger] is_device_session_form(states[j], views_now[j])
                        &&& is_form_of::<DeviceDeliveryEnvelope>(payloads[j], told_now[j])
                    } by {
                        if j < told.len() {
                            assert(is_device_session_form(old_states[j], views(done)[j]));
                        }
                    }
                }
                advanced.push(session);
                envelopes.push(envelope);
                assert(views(advanced@) =~= views(done).push(session@));
                assert(views(envelopes@) =~= told.push(envelope@));
            },
            Err(_) => {},
        }
        i += 1;
    }
    assert(are_stored_as(views(advanced@), views(envelopes@), states, payloads));
    assert(were_queued(old(storage)@, storage@, views(advanced@), views(envelopes@), now));
    (advanced, envelopes)
}

proof fn lemma_deliveries_by_prefix(
    storage: StorageView,
    sessions: Seq<DeviceSessionView>,
    more_sessions: Seq<DeviceSessionView>,
    envelopes: Seq<DeliveryView>,
    states: Seq<Seq<u8>>,
    more_states: Seq<Seq<u8>>,
    payloads: Seq<Seq<u8>>,
    more_payloads: Seq<Seq<u8>>,
    now: u64,
)
    requires
        envelopes.len() <= sessions.len() <= more_sessions.len(),
        envelopes.len() <= states.len() <= more_states.len(),
        envelopes.len() <= payloads.len() <= more_payloads.len(),
        forall|i: int| 0 <= i < sessions.len() ==> sessions[i] == more_sessions[i],
        forall|i: int| 0 <= i < states.len() ==> states[i] == more_states[i],
        forall|i: int| 0 <= i < payloads.len() ==> payloads[i] == more_payloads[i],
    ensures
        with_deliveries(storage, sessions, envelopes, states, payloads, now) == with_deliveries(
            storage,
            more_sessions,
            envelopes,
            more_states,
            more_payloads,
            now,
        ),
    decreases envelopes.len(),
{
    if envelopes.len() > 0 {
        lemma_deliveries_by_prefix(
            storage,
            sessions,
            more_sessions,
            envelopes.drop_last(),
            states,
            more_states,
            payloads,
            more_payloads,
            now,
        );
    }
}

/// Starts a session towards each device of a list of certificates and writes one message on
/// each session.
pub fn write_to_devices(
    device: &DeviceIdentity,
    account_public_key: IdentityPublicKeyBytes,
    certificates: &Vec<DeviceCertificate>,
    logical_message_id: &str,
    plaintext: &str,
) -> (written: Result<(Vec<DeviceSession>, Vec<DeviceDeliveryEnvelope>), CryptoError>)
    requires
        utf8(plaintext@).len() < 64 * 0xffff_ffff,
        !aead_overruns(utf8(plaintext@).len() as int),
    ensures
        match written {
            Ok((sessions, envelopes)) => {
                &&& sessions@.len() == certificates@.len()
                &&& are_written_to(
                    views(envelopes@),
                    device@,
                    views(certificates@),
                    logical_message_id@,
                    plaintext@,
                )
                &&& forall|i: int|
                    0 <= i < certificates@.len() ==> {
                        let opened = outbound_session(device@, certificates@[i]@);
                        &&& (#[trigger] certificates@[i])@.is_issued_by(account_public_key@)
                        &&& sessions@[i]@ == (DeviceSessionView {
                            session: opened.session.send_advanced(),
                            ..opened
                        })
                    }
            },
            Err(error) => {
                &&& error == CryptoError::SignatureVerification
                &&& exists|i: int|
                    0 <= i < certificates@.len() && !(#[trigger] certificates@[i])@.is_issued_by(
                        account_public_key@,
                    )
            },
        },
{
    let mut sessions: Vec<DeviceSession> = Vec::new();
    let mut envelopes: Vec<DeviceDeliveryEnvelope> = Vec::new();
    let mut i: usize = 0;
    while i < certificates.len()
        invariant
            i <= certificates@.len(),
            sessions@.len() == i,
            envelopes@.len() == i,
            utf8(plaintext@).len() < 64 * 0xffff_ffff,
            !aead_overruns(utf8(plaintext@).len() as int),
            forall|j: int|
                0 <= j < i ==> {
                    let opened = outbound_session(device@, certificates@[j]@);
                    &&& (#[trigger] certificates@[j])@.is_issued_by(account_public_key@)
                    &&& sessions@[j]@ == (DeviceSessionView {
                        session: opened.session.send_advanced(),
                        ..opened
                    })
                },
            forall|j: int|
                0 <= j < i ==> is_delivery_on(
                    (#[trigger] envelopes@[j])@,
                    outbound_session(device@, certificates@[j]@),
                    logical_message_id@,
                    plaintext@,
                ),
        decreases certificates@.len() - i,
    {
        let mut session = match device.create_outbound_session(
            account_public_key,
            &certificates[i],
        ) {
            Ok(session) => session,
            Err(error) => {
                assert(!certificates@[i as int]@.is_issued_by(account_public_key@));
                return Err(error);
            },
        };
        match session.encrypt(logical_message_id, plaintext) {
            Ok(envelope) => {
                sessions.push(session);
                envelopes.push(envelope);
            },
            Err(error) => {
                return Err(error);
            },
        }
        i += 1;
    }
    Ok((sessions, envelopes))
}

/// Whether `envelopes` say `text` to the devices of a list of certificates, one to each.
pub open spec fn are_written_to(
    envelopes: Seq<DeliveryView>,
    device: DeviceView,
    certificates: Seq<CertificateView>,
    logical_message_id: Seq<char>,
    text: Seq<char>,
) -> bool {
    &&& envelopes.len() == certificates.len()
    &&& forall|i: int|
        0 <= i < envelopes.len() ==> is_delivery_on(
            #[trigger] envelopes[i],
            outbound_session(device, certificates[i]),
            logical_message_id,
            text,
        )
}

/// A device of which a revocation is known gets nothing that is written to the active
/// devices of its account.
pub proof fn law_revoked_device_gets_nothing(
    account_public_key: Seq<u8>,
    certificates: Seq<CertificateView>,
    revocations: Seq<DeviceRevocation>,
    revoked: int,
    device: DeviceView,
    logical_message_id: Seq<char>,
    text: Seq<char>,
    envelopes: Seq<DeliveryView>,
    i: int,
)
    requires
        0 <= revoked < revocations.len(),
        forall|k: int|
            0 <= k < certificates.len() ==> (#[trigger] certificates[k]).account_id
                == revocations[revoked]@.account_id,
        are_written_to(
            envelopes,
            device,
            certificates.filter(
                |certificate: CertificateView|
                    authorization(account_public_key, certificate, revocations) == Some(true),
            ),
            logical_message_id,
            text,
        ),
        0 <= i < envelopes.len(),
    ensures
        envelopes[i].recipient_device_id != revocations[revoked]@.device_id,
{
    let is_active = |certificate: CertificateView|
        authorization(account_public_key, certificate, revocations) == Some(true);
    let active = certificates.filter(is_active);
    broadcast use vstd::seq_lib::group_seq_properties;

    assert(active.contains(active[i]));
    certificates.lemma_filter_contains_rev(is_active, active[i]);
    assert(is_active(active[i]));
    assert(is_delivery_on(
        envelopes[i],
        outbound_session(device, active[i]),
        logical_message_id,
        text,
    ));
    if active[i].device_id == revocations[revoked]@.device_id {
        law_revoked_device_is_not_authorized(
            account_public_key,
            active[i],
            revocations,
            revoked,
        );
    }
}

/// A storage after an account and one of its devices were stored with their keys and the
/// device's certificate.
pub open spec fn with_own_device(
    storage: StorageView,
    account: AccountView,
    device: DeviceView,
    certificate: Seq<u8>,
    first: u64,
    second: u64,
    third: u64,
) -> StorageView {
    storage.with_account(
        account.account_id,
        account.public_key(),
        Some(account.secret_key),
        first,
    ).with_device(
        device.device_id,
        DeviceRow {
            account_id: device.account_id,
            device_ed25519_public_key: device.ed25519_public_key(),
            device_ed25519_secret_key: device.secret_key,
            device_x25519_public_key: device.x25519_public_key(),
            device_x25519_private_key: device.x25519_private_key,
            updated_at_unix_secs: second,
        },
    ).with_certificate(account.account_id, device.device_id, certificate, third)
}

/// Whether `after` is `before` with an account and one of its devices stored with their keys
/// and the device's certificate, at some time.
pub open spec fn was_persisted(
    before: StorageView,
    after: StorageView,
    account: AccountView,
    device: DeviceView,
    certificate: CertificateView,
) -> bool {
    exists|bytes: Seq<u8>, first: u64, second: u64, third: u64|
        is_form_of::<DeviceCertificate>(bytes, certificate) && after
            == #[trigger] with_own_device(
            before,
            account,
            device,
            bytes,
            first,
            second,
            third,
        )
}

/// Stores an account and one of its devices with their keys, and the device's
/// certificate.
pub fn persist_phase_5a_identity(
    storage: &mut Storage,
    account: &AccountIdentity,
    device: &DeviceIdentity,
    certificate: &DeviceCertificate,
)
    requires
        old(storage).wf(),
    ensures
        final(storage).wf(),
        was_persisted(old(storage)@, final(storage)@, account@, device@, certificate@),
{
    let account_state = account.export_state();
    let device_state = device.export_state();
    let ghost before = storage@;
    storage.save_account_identity(
        account.account_id(),
        account.public_key().as_slice(),
        Some(account_state.account_secret_key.as_slice()),
    );
    let ghost first = choose|now: u64|
        storage@ == #[trigger] before.with_account(
            account@.account_id,
            account@.public_key(),
            Some(account@.secret_key),
            now,
        );
    let ghost with_account = storage@;
    storage.save_device_identity(
        device.device_id(),
        device.account_id(),
        device.ed25519_public_key().as_slice(),
        device_state.device_secret_key.as_slice(),
        device.x25519_public_key().as_slice(),
        device_state.device_x25519_private_key.as_slice(),
    );
    let ghost second = choose|now: u64|
        storage@ == #[trigger] with_account.with_device(
            device@.device_id,
            DeviceRow {
                account_id: device@.account_id,
                device_ed25519_public_key: device@.ed25519_public_key(),
                device_ed25519_secret_key: device@.secret_key,
                device_x25519_public_key: device@.x25519_public_key(),
                device_x25519_private_key: device@.x25519_private_key,
                updated_at_unix_secs: now,
            },
        );
    let ghost with_device = storage@;
    let bytes = encode(certificate);
    storage.save_device_certificate(account.account_id(), device.device_id(), bytes.as_slice());
    let ghost third = choose|now: u64|
        storage@ == #[trigger] with_device.with_certificate(
            account@.account_id,
            device@.device_id,
            bytes@,
            now,
        );
    assert(storage@ == with_own_device(before, account@, device@, bytes@, first, second, third));
}

/// A device reads what another device writes to it on the session that its certificate
/// opened: the two sessions are the two sides of one conversation.
pub proof fn law_device_sessions_are_in_step(
    sender: DeviceView,
    receiver: DeviceView,
    certificate: CertificateView,
)
    requires
        certificate.x25519_public_key == receiver.x25519_public_key(),
        secrets_agree(sender.x25519_private_key, receiver.x25519_private_key),
    ensures
        crate::session_laws::in_step(
            outbound_session(sender, certificate).session,
            SessionView::start(
                aead_key(receiver.x25519_private_key, sender.x25519_public_key()),
                RatchetRole::Bob,
                receiver.x25519_private_key,
                sender.x25519_public_key(),
            ),
            crate::ratchet::alice_chain(outbound_session(sender, certificate).session.root_key),
        ),
{
    crate::party_laws::law_exchanged_sessions_are_paired(
        sender.x25519_private_key,
        receiver.x25519_private_key,
    );
}

} // verus!
