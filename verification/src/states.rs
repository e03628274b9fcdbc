//! The binary form of what a client keeps: its parties, sessions, devices and events.

use crate::codec::{begins_with, le_bytes, lemma_fits, lemma_number_is_read_back};
use crate::device::{
    CertificateView, DeviceCertificate, DeviceDeliveryEnvelope, DeviceRevocation, DeviceSession,
    DeviceSessionState, DeviceSessionView, RevocationView,
};
use crate::party::{
    is_sorted_state, stored_session, Alice, AliceState, AliceView, Bob, BobState, BobView,
    OneTimePreKeyState,
};
use crate::party_laws::lemma_stored_session_has_one_form;
use crate::records::{EventRecord, EventRow};
use crate::session::{
    keys_by_number, MessageView, RatchetMessage, RatchetRole, RatchetRoleState,
    RatchetSessionState, SessionView,
};
use crate::session_laws::law_session_has_one_state;
use crate::sorted::{option_view, views};
use crate::wire::{
    decode, decoding, encode, is_form_of, read_tag, write_list, write_option, write_tag, Listing,
    Maybe, Wire,
};
use vstd::prelude::*;

verus! {

/// Every list of values has valid contents.
pub proof fn lemma_list_is_valid<T: Wire>(items: Vec<T>)
    ensures
        <Listing<T> as Wire>::valid(views(items@)),
{
    let list = Listing { items };
    list.contents_are_valid();
}

impl View for RatchetRoleState {
    type V = RatchetRoleState;

    open spec fn view(&self) -> RatchetRoleState {
        *self
    }
}

/// The number that tells the roles apart.
pub open spec fn role_tag(role: RatchetRoleState) -> u32 {
    match role {
        RatchetRoleState::Alice => 0,
        RatchetRoleState::Bob => 1,
    }
}

impl Wire for RatchetRoleState {
    open spec fn valid(contents: RatchetRoleState) -> bool {
        true
    }

    open spec fn encoded(contents: RatchetRoleState) -> Seq<u8> {
        le_bytes(role_tag(contents) as nat, 4)
    }

    proof fn contents_are_valid(&self) {
    }

    proof fn begins_with_one(bytes: Seq<u8>, a: RatchetRoleState, b: RatchetRoleState) {
        lemma_fits(role_tag(a) as nat);
        lemma_fits(role_tag(b) as nat);
        lemma_number_is_read_back(bytes, role_tag(a) as nat, role_tag(b) as nat, 4);
    }

    fn write(&self, bytes: &mut Vec<u8>) {
        match self {
            RatchetRoleState::Alice => write_tag(0, bytes),
            RatchetRoleState::Bob => write_tag(1, bytes),
        }
    }

    fn read(bytes: &[u8], at: usize) -> (read: Option<(RatchetRoleState, usize)>) {
        let ghost rest = bytes@.skip(at as int);
        let len: usize = bytes.len();
        match read_tag(bytes, at) {
            None => None,
            Some(tag) => {
                proof {
                    assert forall|contents: RatchetRoleState|
                        begins_with(rest, #[trigger] Self::encoded(contents)) implies role_tag(
                        contents,
                    ) == tag by {
                        lemma_fits(role_tag(contents) as nat);
                        lemma_fits(tag as nat);
                        lemma_number_is_read_back(rest, role_tag(contents) as nat, tag as nat, 4);
                    }
                }
                if tag == 0 {
                    Some((RatchetRoleState::Alice, at + 4))
                } else if tag == 1 {
                    Some((RatchetRoleState::Bob, at + 4))
                } else {
                    None
                }
            },
        }
    }
}

/// The contents of a `RatchetSessionState`.
#[verifier::ext_equal]
pub struct SessionStateView {
    pub role: RatchetRoleState,
    pub root_key: Seq<u8>,
    pub send_chain_key: Seq<u8>,
    pub recv_chain_key: Seq<u8>,
    pub send_count: u64,
    pub recv_count: u64,
    pub skipped_message_keys: Seq<(u64, Seq<u8>)>,
    pub consumed_message_numbers: Seq<u64>,
    pub dh_private_key: Seq<u8>,
    pub peer_ratchet_public_key: Seq<u8>,
}

impl View for RatchetSessionState {
    type V = SessionStateView;

    open spec fn view(&self) -> SessionStateView {
        SessionStateView {
            role: self.role,
            root_key: self.root_key@,
            send_chain_key: self.send_chain_key@,
            recv_chain_key: self.recv_chain_key@,
            send_count: self.send_count,
            recv_count: self.recv_count,
            skipped_message_keys: views(self.skipped_message_keys@),
            consumed_message_numbers: views(self.consumed_message_numbers@),
            dh_private_key: self.dh_private_key@,
            peer_ratchet_public_key: self.peer_ratchet_public_key@,
        }
    }
}

/// The fields of a stored session.
pub type RatchetSessionStateWire = (RatchetRoleState, ([u8; 32], ([u8; 32], ([u8; 32], (u64, (u64, (Listing<(u64, [u8; 32])>, (Listing<u64>, ([u8; 32], [u8; 32])))))))));

pub open spec fn session_parts(contents: SessionStateView) -> (RatchetRoleState, (Seq<u8>, (Seq<u8>, (Seq<u8>, (u64, (u64, (Seq<(u64, Seq<u8>)>, (Seq<u64>, (Seq<u8>, Seq<u8>))))))))) {
    (contents.role, (contents.root_key, (contents.send_chain_key, (contents.recv_chain_key, (contents.send_count, (contents.recv_count, (contents.skipped_message_keys, (contents.consumed_message_numbers, (contents.dh_private_key, contents.peer_ratchet_public_key)))))))))
}

impl Wire for RatchetSessionState {
    open spec fn valid(contents: SessionStateView) -> bool {
        <RatchetSessionStateWire as Wire>::valid(session_parts(contents))
    }

    open spec fn encoded(contents: SessionStateView) -> Seq<u8> {
        <RatchetSessionStateWire as Wire>::encoded(session_parts(contents))
    }

    proof fn contents_are_valid(&self) {
        self.role.contents_are_valid();
        self.root_key.contents_are_valid();
        self.send_chain_key.contents_are_valid();
        self.recv_chain_key.contents_are_valid();
        self.send_count.contents_are_valid();
        self.recv_count.contents_are_valid();
        lemma_list_is_valid(self.skipped_message_keys);
        lemma_list_is_valid(self.consumed_message_numbers);
        self.dh_private_key.contents_are_valid();
        self.peer_ratchet_public_key.contents_are_valid();
    }

    proof fn begins_with_one(bytes: Seq<u8>, a: SessionStateView, b: SessionStateView) {
        <RatchetSessionStateWire as Wire>::begins_with_one(bytes, session_parts(a), session_parts(b));
    }

    fn write(&self, bytes: &mut Vec<u8>) {
        self.role.write(bytes);
        self.root_key.write(bytes);
        self.send_chain_key.write(bytes);
        self.recv_chain_key.write(bytes);
        self.send_count.write(bytes);
        self.recv_count.write(bytes);
        write_list(&self.skipped_message_keys, bytes);
        write_list(&self.consumed_message_numbers, bytes);
        self.dh_private_key.write(bytes);
        self.peer_ratchet_public_key.write(bytes);
        assert(bytes@ =~= old(bytes)@ + Self::encoded(self@));
    }

    fn read(bytes: &[u8], at: usize) -> (read: Option<(RatchetSessionState, usize)>) {
        match <RatchetSessionStateWire as Wire>::read(bytes, at) {
            Some(((role, (root_key, (send_chain_key, (recv_chain_key, (send_count, (recv_count, (skipped_message_keys, (consumed_message_numbers, (dh_private_key, peer_ratchet_public_key))))))))), next)) => {
                let value = RatchetSessionState {
                    role,
                    root_key,
                    send_chain_key,
                    recv_chain_key,
                    send_count,
                    recv_count,
                    skipped_message_keys: skipped_message_keys.items,
                    consumed_message_numbers: consumed_message_numbers.items,
                    dh_private_key,
                    peer_ratchet_public_key,
                };
                assert(session_parts(value@) == (role@, (root_key@, (send_chain_key@, (recv_chain_key@, (send_count@, (recv_count@, (skipped_message_keys@, (consumed_message_numbers@, (dh_private_key@, peer_ratchet_public_key@))))))))));
                Some((value, next))
            },
            None => {
                proof {
                    assert forall|contents: SessionStateView|
                        Self::valid(contents) implies !begins_with(
                        bytes@.skip(at as int),
                        #[trigger] Self::encoded(contents),
                    ) by {
                        assert(<RatchetSessionStateWire as Wire>::valid(session_parts(contents)));
                    }
                }
                None
            },
        }
    }
}

/// The contents of an `OneTimePreKeyState`.
#[verifier::ext_equal]
pub struct OneTimePreKeyView {
    pub id: u64,
    pub private_key: Seq<u8>,
}

impl View for OneTimePreKeyState {
    type V = OneTimePreKeyView;

    open spec fn view(&self) -> OneTimePreKeyView {
        OneTimePreKeyView {
            id: self.id,
            private_key: self.private_key@,
        }
    }
}

/// The fields of a stored one-time prekey.
pub type OneTimePreKeyStateWire = (u64, [u8; 32]);

pub open spec fn prekey_parts(contents: OneTimePreKeyView) -> (u64, Seq<u8>) {
    (contents.id, contents.private_key)
}

impl Wire for OneTimePreKeyState {
    open spec fn valid(contents: OneTimePreKeyView) -> bool {
        <OneTimePreKeyStateWire as Wire>::valid(prekey_parts(contents))
    }

    open spec fn encoded(contents: OneTimePreKeyView) -> Seq<u8> {
        <OneTimePreKeyStateWire as Wire>::encoded(prekey_parts(contents))
    }

    proof fn contents_are_valid(&self) {
        self.id.contents_are_valid();
        self.private_key.contents_are_valid();
    }

    proof fn begins_with_one(bytes: Seq<u8>, a: OneTimePreKeyView, b: OneTimePreKeyView) {
        <OneTimePreKeyStateWire as Wire>::begins_with_one(bytes, prekey_parts(a), prekey_parts(b));
    }

    fn write(&self, bytes: &mut Vec<u8>) {
        self.id.write(bytes);
        self.private_key.write(bytes);
        assert(bytes@ =~= old(bytes)@ + Self::encoded(self@));
    }

    fn read(bytes: &[u8], at: usize) -> (read: Option<(OneTimePreKeyState, usize)>) {
        match <OneTimePreKeyStateWire as Wire>::read(bytes, at) {
            Some(((id, private_key), next)) => {
                let value = OneTimePreKeyState {
                    id,
                    private_key,
                };
                assert(prekey_parts(value@) == (id@, private_key@));
                Some((value, next))
            },
            None => {
                proof {
                    assert forall|contents: OneTimePreKeyView|
                        Self::valid(contents) implies !begins_with(
                        bytes@.skip(at as int),
                        #[trigger] Self::encoded(contents),
                    ) by {
                        assert(<OneTimePreKeyStateWire as Wire>::valid(prekey_parts(contents)));
                    }
                }
                None
            },
        }
    }
}

/// The contents of an `AliceState`.
#[verifier::ext_equal]
pub struct AliceStateView {
    pub identity_secret_key: Seq<u8>,
    pub x25519_private_key: Seq<u8>,
    pub session: Option<SessionStateView>,
}

impl View for AliceState {
    type V = AliceStateView;

    open spec fn view(&self) -> AliceStateView {
        AliceStateView {
            identity_secret_key: self.identity_secret_key@,
            x25519_private_key: self.x25519_private_key@,
            session: option_view(self.session),
        }
    }
}

/// The fields of a stored party that opens conversations.
pub type AliceStateWire = ([u8; 32], ([u8; 32], Maybe<RatchetSessionState>));

pub open spec fn alice_parts(contents: AliceStateView) -> (Seq<u8>, (Seq<u8>, Option<SessionStateView>)) {
    (contents.identity_secret_key, (contents.x25519_private_key, contents.session))
}

impl Wire for AliceState {
    open spec fn valid(contents: AliceStateView) -> bool {
        <AliceStateWire as Wire>::valid(alice_parts(contents))
    }

    open spec fn encoded(contents: AliceStateView) -> Seq<u8> {
        <AliceStateWire as Wire>::encoded(alice_parts(contents))
    }

    proof fn contents_are_valid(&self) {
        self.identity_secret_key.contents_are_valid();
        self.x25519_private_key.contents_are_valid();
        if let Some(value) = self.session {
            value.contents_are_valid();
        }
    }

    proof fn begins_with_one(bytes: Seq<u8>, a: AliceStateView, b: AliceStateView) {
        <AliceStateWire as Wire>::begins_with_one(bytes, alice_parts(a), alice_parts(b));
    }

    fn write(&self, bytes: &mut Vec<u8>) {
        self.identity_secret_key.write(bytes);
        self.x25519_private_key.write(bytes);
        write_option(&self.session, bytes);
        assert(bytes@ =~= old(bytes)@ + Self::encoded(self@));
    }

    fn read(bytes: &[u8], at: usize) -> (read: Option<(AliceState, usize)>) {
        match <AliceStateWire as Wire>::read(bytes, at) {
            Some(((identity_secret_key, (x25519_private_key, session)), next)) => {
                let value = AliceState {
                    identity_secret_key,
                    x25519_private_key,
                    session: session.value,
                };
                assert(alice_parts(value@) == (identity_secret_key@, (x25519_private_key@, session@)));
                Some((value, next))
            },
            None => {
                proof {
                    assert forall|contents: AliceStateView|
                        Self::valid(contents) implies !begins_with(
                        bytes@.skip(at as int),
                        #[trigger] Self::encoded(contents),
                    ) by {
                        assert(<AliceStateWire as Wire>::valid(alice_parts(contents)));
                    }
                }
                None
            },
        }
    }
}

/// The contents of a `BobState`.
#[verifier::ext_equal]
pub struct BobStateView {
    pub identity_secret_key: Seq<u8>,
    pub x25519_private_key: Seq<u8>,
    pub signed_prekey_private_key: Seq<u8>,
    pub one_time_prekey: Option<OneTimePreKeyView>,
    pub session: Option<SessionStateView>,
}

impl View for BobState {
    type V = BobStateView;

    open spec fn view(&self) -> BobStateView {
        BobStateView {
            identity_secret_key: self.identity_secret_key@,
            x25519_private_key: self.x25519_private_key@,
            signed_prekey_private_key: self.signed_prekey_private_key@,
            one_time_prekey: option_view(self.one_time_prekey),
            session: option_view(self.session),
        }
    }
}

/// The fields of a stored party that can be written to while away.
pub type BobStateWire = ([u8; 32], ([u8; 32], ([u8; 32], (Maybe<OneTimePreKeyState>, Maybe<RatchetSessionState>))));

pub open spec fn bob_parts(contents: BobStateView) -> (Seq<u8>, (Seq<u8>, (Seq<u8>, (Option<OneTimePreKeyView>, Option<SessionStateView>)))) {
    (contents.identity_secret_key, (contents.x25519_private_key, (contents.signed_prekey_private_key, (contents.one_time_prekey, contents.session))))
}

impl Wire for BobState {
    open spec fn valid(contents: BobStateView) -> bool {
        <BobStateWire as Wire>::valid(bob_parts(contents))
    }

    open spec fn encoded(contents: BobStateView) -> Seq<u8> {
        <BobStateWire as Wire>::encoded(bob_parts(contents))
    }

    proof fn contents_are_valid(&self) {
        self.identity_secret_key.contents_are_valid();
        self.x25519_private_key.contents_are_valid();
        self.signed_prekey_private_key.contents_are_valid();
        if let Some(value) = self.one_time_prekey {
            value.contents_are_valid();
        }
        if let Some(value) = self.session {
            value.contents_are_valid();
        }
    }

    proof fn begins_with_one(bytes: Seq<u8>, a: BobStateView, b: BobStateView) {
        <BobStateWire as Wire>::begins_with_one(bytes, bob_parts(a), bob_parts(b));
    }

    fn write(&self, bytes: &mut Vec<u8>) {
        self.identity_secret_key.write(bytes);
        self.x25519_private_key.write(bytes);
        self.signed_prekey_private_key.write(bytes);
        write_option(&self.one_time_prekey, bytes);
        write_option(&self.session, bytes);
        assert(bytes@ =~= old(bytes)@ + Self::encoded(self@));
    }

    fn read(bytes: &[u8], at: usize) -> (read: Option<(BobState, usize)>) {
        match <BobStateWire as Wire>::read(bytes, at) {
            Some(((identity_secret_key, (x25519_private_key, (signed_prekey_private_key, (one_time_prekey, session)))), next)) => {
                let value = BobState {
                    identity_secret_key,
                    x25519_private_key,
                    signed_prekey_private_key,
                    one_time_prekey: one_time_prekey.value,
                    session: session.value,
                };
                assert(bob_parts(value@) == (identity_secret_key@, (x25519_private_key@, (signed_prekey_private_key@, (one_time_prekey@, session@)))));
                Some((value, next))
            },
            None => {
                proof {
                    assert forall|contents: BobStateView|
                        Self::valid(contents) implies !begins_with(
                        bytes@.skip(at as int),
                        #[trigger] Self::encoded(contents),
                    ) by {
                        assert(<BobStateWire as Wire>::valid(bob_parts(contents)));
                    }
                }
                None
            },
        }
    }
}

/// The fields of a certificate.
pub type DeviceCertificateWire = (String, (String, ([u8; 32], ([u8; 32], Vec<u8>))));

pub open spec fn certificate_parts(contents: CertificateView) -> (Seq<char>, (Seq<char>, (Seq<u8>, (Seq<u8>, Seq<u8>)))) {
    (contents.account_id, (contents.device_id, (contents.ed25519_public_key, (contents.x25519_public_key, contents.signature))))
}

impl Wire for DeviceCertificate {
    open spec fn valid(contents: CertificateView) -> bool {
        <DeviceCertificateWire as Wire>::valid(certificate_parts(contents))
    }

    open spec fn encoded(contents: CertificateView) -> Seq<u8> {
        <DeviceCertificateWire as Wire>::encoded(certificate_parts(contents))
    }

    proof fn contents_are_valid(&self) {
        self.account_id.contents_are_valid();
        self.device_id.contents_are_valid();
        self.device_ed25519_public_key.contents_are_valid();
        self.device_x25519_public_key.contents_are_valid();
        self.signature.contents_are_valid();
    }

    proof fn begins_with_one(bytes: Seq<u8>, a: CertificateView, b: CertificateView) {
        <DeviceCertificateWire as Wire>::begins_with_one(bytes, certificate_parts(a), certificate_parts(b));
    }

    fn write(&self, bytes: &mut Vec<u8>) {
        self.account_id.write(bytes);
        self.device_id.write(bytes);
        self.device_ed25519_public_key.write(bytes);
        self.device_x25519_public_key.write(bytes);
        self.signature.write(bytes);
        assert(bytes@ =~= old(bytes)@ + Self::encoded(self@));
    }

    fn read(bytes: &[u8], at: usize) -> (read: Option<(DeviceCertificate, usize)>) {
        match <DeviceCertificateWire as Wire>::read(bytes, at) {
            Some(((account_id, (device_id, (device_ed25519_public_key, (device_x25519_public_key, signature)))), next)) => {
                let value = DeviceCertificate {
                    account_id,
                    device_id,
                    device_ed25519_public_key,
                    device_x25519_public_key,
                    signature,
                };
                assert(certificate_parts(value@) == (account_id@, (device_id@, (device_ed25519_public_key@, (device_x25519_public_key@, signature@)))));
                Some((value, next))
            },
            None => {
                proof {
                    assert forall|contents: CertificateView|
                        Self::valid(contents) implies !begins_with(
                        bytes@.skip(at as int),
                        #[trigger] Self::encoded(contents),
                    ) by {
                        assert(<DeviceCertificateWire as Wire>::valid(certificate_parts(contents)));
                    }
                }
                None
            },
        }
    }
}

/// The fields of a revocation.
pub type DeviceRevocationWire = (String, (String, (u64, Vec<u8>)));

pub open spec fn revocation_parts(contents: RevocationView) -> (Seq<char>, (Seq<char>, (u64, Seq<u8>))) {
    (contents.account_id, (contents.device_id, (contents.revocation_counter, contents.signature)))
}

impl Wire for DeviceRevocation {
    open spec fn valid(contents: RevocationView) -> bool {
        <DeviceRevocationWire as Wire>::valid(revocation_parts(contents))
    }

    open spec fn encoded(contents: RevocationView) -> Seq<u8> {
        <DeviceRevocationWire as Wire>::encoded(revocation_parts(contents))
    }

    proof fn contents_are_valid(&self) {
        self.account_id.contents_are_valid();
        self.device_id.contents_are_valid();
        self.revocation_counter.contents_are_valid();
        self.signature.contents_are_valid();
    }

    proof fn begins_with_one(bytes: Seq<u8>, a: RevocationView, b: RevocationView) {
        <DeviceRevocationWire as Wire>::begins_with_one(bytes, revocation_parts(a), revocation_parts(b));
    }

    fn write(&self, bytes: &mut Vec<u8>) {
        self.account_id.write(bytes);
        self.device_id.write(bytes);
        self.revocation_counter.write(bytes);
        self.signature.write(bytes);
        assert(bytes@ =~= old(bytes)@ + Self::encoded(self@));
    }

    fn read(bytes: &[u8], at: usize) -> (read: Option<(DeviceRevocation, usize)>) {
        match <DeviceRevocationWire as Wire>::read(bytes, at) {
            Some(((account_id, (device_id, (revocation_counter, signature))), next)) => {
                let value = DeviceRevocation {
                    account_id,
                    device_id,
                    revocation_counter,
                    signature,
                };
                assert(revocation_parts(value@) == (account_id@, (device_id@, (revocation_counter@, signature@))));
                Some((value, next))
            },
            None => {
                proof {
                    assert forall|contents: RevocationView|
                        Self::valid(contents) implies !begins_with(
                        bytes@.skip(at as int),
                        #[trigger] Self::encoded(contents),
                    ) by {
                        assert(<DeviceRevocationWire as Wire>::valid(revocation_parts(contents)));
                    }
                }
                None
            },
        }
    }
}

/// The contents of a `DeviceDeliveryEnvelope`.
#[verifier::ext_equal]
pub struct DeliveryView {
    pub logical_message_id: Seq<char>,
    pub sender_device_id: Seq<char>,
    pub recipient_device_id: Seq<char>,
    pub message: MessageView,
}

impl View for DeviceDeliveryEnvelope {
    type V = DeliveryView;

    open spec fn view(&self) -> DeliveryView {
        DeliveryView {
            logical_message_id: self.logical_message_id@,
            sender_device_id: self.sender_device_id@,
            recipient_device_id: self.recipient_device_id@,
            message: self.message@,
        }
    }
}

/// The fields of a delivery to a device.
pub type DeviceDeliveryEnvelopeWire = (String, (String, (String, RatchetMessage)));

pub open spec fn delivery_parts(contents: DeliveryView) -> (Seq<char>, (Seq<char>, (Seq<char>, MessageView))) {
    (contents.logical_message_id, (contents.sender_device_id, (contents.recipient_device_id, contents.message)))
}

impl Wire for DeviceDeliveryEnvelope {
    open spec fn valid(contents: DeliveryView) -> bool {
        <DeviceDeliveryEnvelopeWire as Wire>::valid(delivery_parts(contents))
    }

    open spec fn encoded(contents: DeliveryView) -> Seq<u8> {
        <DeviceDeliveryEnvelopeWire as Wire>::encoded(delivery_parts(contents))
    }

    proof fn contents_are_valid(&self) {
        self.logical_message_id.contents_are_valid();
        self.sender_device_id.contents_are_valid();
        self.recipient_device_id.contents_are_valid();
        self.message.contents_are_valid();
    }

    proof fn begins_with_one(bytes: Seq<u8>, a: DeliveryView, b: DeliveryView) {
        <DeviceDeliveryEnvelopeWire as Wire>::begins_with_one(bytes, delivery_parts(a), delivery_parts(b));
    }

    fn write(&self, bytes: &mut Vec<u8>) {
        self.logical_message_id.write(bytes);
        self.sender_device_id.write(bytes);
        self.recipient_device_id.write(bytes);
        self.message.write(bytes);
        assert(bytes@ =~= old(bytes)@ + Self::encoded(self@));
    }

    fn read(bytes: &[u8], at: usize) -> (read: Option<(DeviceDeliveryEnvelope, usize)>) {
        match <DeviceDeliveryEnvelopeWire as Wire>::read(bytes, at) {
            Some(((logical_message_id, (sender_device_id, (recipient_device_id, message))), next)) => {
                let value = DeviceDeliveryEnvelope {
                    logical_message_id,
                    sender_device_id,
                    recipient_device_id,
                    message,
                };
                assert(delivery_parts(value@) == (logical_message_id@, (sender_device_id@, (recipient_device_id@, message@))));
                Some((value, next))
            },
            None => {
                proof {
                    assert forall|contents: DeliveryView|
                        Self::valid(contents) implies !begins_with(
                        bytes@.skip(at as int),
                        #[trigger] Self::encoded(contents),
                    ) by {
                        assert(<DeviceDeliveryEnvelopeWire as Wire>::valid(delivery_parts(contents)));
                    }
                }
                None
            },
        }
    }
}

/// The contents of a `DeviceSessionState`.
#[verifier::ext_equal]
pub struct DeviceSessionStateView {
    pub local_device_id: Seq<char>,
    pub remote_device_id: Seq<char>,
    pub session: SessionStateView,
}

impl View for DeviceSessionState {
    type V = DeviceSessionStateView;

    open spec fn view(&self) -> DeviceSessionStateView {
        DeviceSessionStateView {
            local_device_id: self.local_device_id@,
            remote_device_id: self.remote_device_id@,
            session: self.session@,
        }
    }
}

/// The fields of a stored session of two devices.
pub type DeviceSessionStateWire = (String, (String, RatchetSessionState));

pub open spec fn device_session_parts(contents: DeviceSessionStateView) -> (Seq<char>, (Seq<char>, SessionStateView)) {
    (contents.local_device_id, (contents.remote_device_id, contents.session))
}

impl Wire for DeviceSessionState {
    open spec fn valid(contents: DeviceSessionStateView) -> bool {
        <DeviceSessionStateWire as Wire>::valid(device_session_parts(contents))
    }

    open spec fn encoded(contents: DeviceSessionStateView) -> Seq<u8> {
        <DeviceSessionStateWire as Wire>::encoded(device_session_parts(contents))
    }

    proof fn contents_are_valid(&self) {
        self.local_device_id.contents_are_valid();
        self.remote_device_id.contents_are_valid();
        self.session.contents_are_valid();
    }

    proof fn begins_with_one(bytes: Seq<u8>, a: DeviceSessionStateView, b: DeviceSessionStateView) {
        <DeviceSessionStateWire as Wire>::begins_with_one(bytes, device_session_parts(a), device_session_parts(b));
    }

    fn write(&self, bytes: &mut Vec<u8>) {
        self.local_device_id.write(bytes);
        self.remote_device_id.write(bytes);
        self.session.write(bytes);
        assert(bytes@ =~= old(bytes)@ + Self::encoded(self@));
    }

    fn read(bytes: &[u8], at: usize) -> (read: Option<(DeviceSessionState, usize)>) {
        match <DeviceSessionStateWire as Wire>::read(bytes, at) {
            Some(((local_device_id, (remote_device_id, session)), next)) => {
                let value = DeviceSessionState {
                    local_device_id,
                    remote_device_id,
                    session,
                };
                assert(device_session_parts(value@) == (local_device_id@, (remote_device_id@, session@)));
                Some((value, next))
            },
            None => {
                proof {
                    assert forall|contents: DeviceSessionStateView|
                        Self::valid(contents) implies !begins_with(
                        bytes@.skip(at as int),
                        #[trigger] Self::encoded(contents),
                    ) by {
                        assert(<DeviceSessionStateWire as Wire>::valid(device_session_parts(contents)));
                    }
                }
                None
            },
        }
    }
}

/// The fields of an event.
pub type EventRecordWire = (String, (u64, (String, (String, (Maybe<String>, (Vec<u8>, u64))))));

pub open spec fn event_parts(contents: EventRow) -> (Seq<char>, (u64, (Seq<char>, (Seq<char>, (Option<Seq<char>>, (Seq<u8>, u64)))))) {
    (contents.device_id, (contents.counter, (contents.conversation_id, (contents.event_type, (contents.message_id, (contents.payload, contents.created_at_unix_secs))))))
}

impl Wire for EventRecord {
    open spec fn valid(contents: EventRow) -> bool {
        <EventRecordWire as Wire>::valid(event_parts(contents))
    }

    open spec fn encoded(contents: EventRow) -> Seq<u8> {
        <EventRecordWire as Wire>::encoded(event_parts(contents))
    }

    proof fn contents_are_valid(&self) {
        self.device_id.contents_are_valid();
        self.counter.contents_are_valid();
        self.conversation_id.contents_are_valid();
        self.event_type.contents_are_valid();
        if let Some(value) = self.message_id {
            value.contents_are_valid();
        }
        self.payload.contents_are_valid();
        self.created_at_unix_secs.contents_are_valid();
    }

    proof fn begins_with_one(bytes: Seq<u8>, a: EventRow, b: EventRow) {
        <EventRecordWire as Wire>::begins_with_one(bytes, event_parts(a), event_parts(b));
    }

    fn write(&self, bytes: &mut Vec<u8>) {
        self.device_id.write(bytes);
        self.counter.write(bytes);
        self.conversation_id.write(bytes);
        self.event_type.write(bytes);
        write_option(&self.message_id, bytes);
        self.payload.write(bytes);
        self.created_at_unix_secs.write(bytes);
        assert(bytes@ =~= old(bytes)@ + Self::encoded(self@));
    }

    fn read(bytes: &[u8], at: usize) -> (read: Option<(EventRecord, usize)>) {
        match <EventRecordWire as Wire>::read(bytes, at) {
            Some(((device_id, (counter, (conversation_id, (event_type, (message_id, (payload, created_at_unix_secs)))))), next)) => {
                let value = EventRecord {
                    device_id,
                    counter,
                    conversation_id,
                    event_type,
                    message_id: message_id.value,
                    payload,
                    created_at_unix_secs,
                };
                assert(event_parts(value@) == (device_id@, (counter@, (conversation_id@, (event_type@, (message_id@, (payload@, created_at_unix_secs@)))))));
                Some((value, next))
            },
            None => {
                proof {
                    assert forall|contents: EventRow|
                        Self::valid(contents) implies !begins_with(
                        bytes@.skip(at as int),
                        #[trigger] Self::encoded(contents),
                    ) by {
                        assert(<EventRecordWire as Wire>::valid(event_parts(contents)));
                    }
                }
                None
            },
        }
    }
}

/// The map that a list of numbered keys stands for; of two entries with one number the
/// later counts.
pub open spec fn numbered_keys(entries: Seq<(u64, Seq<u8>)>) -> Map<u64, Seq<u8>>
    decreases entries.len(),
{
    if entries.len() == 0 {
        Map::empty()
    } else {
        numbered_keys(entries.drop_last()).insert(entries.last().0, entries.last().1)
    }
}

proof fn lemma_numbered_keys(entries: Seq<(u64, [u8; 32])>)
    ensures
        numbered_keys(views(entries)) == keys_by_number(entries),
    decreases entries.len(),
{
    if entries.len() > 0 {
        lemma_numbered_keys(entries.drop_last());
        assert(views(entries).drop_last() =~= views(entries.drop_last()));
    }
}

impl SessionStateView {
    /// The session that the stored contents stand for.
    pub open spec fn session(self) -> SessionView {
        SessionView {
            role: match self.role {
                RatchetRoleState::Alice => RatchetRole::Alice,
                RatchetRoleState::Bob => RatchetRole::Bob,
            },
            root_key: self.root_key,
            send_chain_key: self.send_chain_key,
            recv_chain_key: self.recv_chain_key,
            send_count: self.send_count,
            recv_count: self.recv_count,
            skipped: numbered_keys(self.skipped_message_keys),
            consumed: self.consumed_message_numbers.to_set(),
            dh_private: self.dh_private_key,
            peer: self.peer_ratchet_public_key,
        }
    }
}

proof fn lemma_session_of_state(state: RatchetSessionState)
    ensures
        state@.session() == state.session(),
{
    lemma_numbered_keys(state.skipped_message_keys@);
    assert(views(state.consumed_message_numbers@) =~= state.consumed_message_numbers@);
}

/// The session that stored contents stand for, where there are any.
pub open spec fn session_of(contents: Option<SessionStateView>) -> Option<SessionView> {
    match contents {
        Some(contents) => Some(contents.session()),
        None => None,
    }
}

proof fn lemma_optional_session(state: Option<RatchetSessionState>)
    ensures
        session_of(option_view(state)) == stored_session(state),
{
    if let Some(session) = state {
        lemma_session_of_state(session);
    }
}

impl AliceStateView {
    /// The party that the stored contents stand for.
    pub open spec fn party(self) -> AliceView {
        AliceView {
            identity_secret_key: self.identity_secret_key,
            x25519_private_key: self.x25519_private_key,
            session: session_of(self.session),
        }
    }
}

impl BobStateView {
    /// The party that the stored contents stand for.
    pub open spec fn party(self) -> BobView {
        BobView {
            identity_secret_key: self.identity_secret_key,
            x25519_private_key: self.x25519_private_key,
            signed_prekey_private_key: self.signed_prekey_private_key,
            one_time_prekey: match self.one_time_prekey {
                Some(prekey) => Some((prekey.id, prekey.private_key)),
                None => None,
            },
            session: session_of(self.session),
        }
    }
}

/// The party that stored bytes stand for.
pub open spec fn stored_alice(bytes: Seq<u8>) -> Option<AliceView> {
    match decoding::<AliceState>(bytes) {
        Some(contents) => Some(contents.party()),
        None => None,
    }
}

/// The party that stored bytes stand for.
pub open spec fn stored_bob(bytes: Seq<u8>) -> Option<BobView> {
    match decoding::<BobState>(bytes) {
        Some(contents) => Some(contents.party()),
        None => None,
    }
}

/// The session that stored bytes stand for.
pub open spec fn stored_ratchet(bytes: Seq<u8>) -> Option<SessionView> {
    session_of(decoding::<RatchetSessionState>(bytes))
}

/// The session of two devices that stored bytes stand for.
pub open spec fn stored_device_session(bytes: Seq<u8>) -> Option<DeviceSessionView> {
    match decoding::<DeviceSessionState>(bytes) {
        Some(contents) => Some(
            DeviceSessionView {
                local_device_id: contents.local_device_id,
                remote_device_id: contents.remote_device_id,
                session: contents.session.session(),
            },
        ),
        None => None,
    }
}

/// Whether bytes are what a party is stored as: the binary form of its state and nothing
/// more.
pub open spec fn is_alice_form(bytes: Seq<u8>, alice: AliceView) -> bool {
    &&& stored_alice(bytes) == Some(alice)
    &&& exists|state: AliceState|
        {
            &&& #[trigger] state.party() == alice
            &&& is_sorted_state(state.session)
            &&& is_form_of::<AliceState>(bytes, state@)
        }
}

/// Whether bytes are what a party is stored as: the binary form of its state and nothing
/// more.
pub open spec fn is_bob_form(bytes: Seq<u8>, bob: BobView) -> bool {
    &&& stored_bob(bytes) == Some(bob)
    &&& exists|state: BobState|
        {
            &&& #[trigger] state.party() == bob
            &&& is_sorted_state(state.session)
            &&& is_form_of::<BobState>(bytes, state@)
        }
}

/// Whether bytes are what a session is stored as: the binary form of its state and nothing
/// more.
pub open spec fn is_ratchet_form(bytes: Seq<u8>, session: SessionView) -> bool {
    &&& stored_ratchet(bytes) == Some(session)
    &&& exists|state: RatchetSessionState|
        {
            &&& #[trigger] state.session() == session
            &&& state.is_sorted()
            &&& is_form_of::<RatchetSessionState>(bytes, state@)
        }
}

/// Whether there is a session and bytes are what it is stored as.
pub open spec fn is_session_form(bytes: Seq<u8>, session: Option<SessionView>) -> bool {
    session matches Some(session) && is_ratchet_form(bytes, session)
}

/// Whether bytes are what the session of two devices is stored as: the binary form of its
/// state and nothing more.
pub open spec fn is_device_session_form(bytes: Seq<u8>, session: DeviceSessionView) -> bool {
    &&& stored_device_session(bytes) == Some(session)
    &&& exists|state: DeviceSessionState|
        {
            &&& #[trigger] state.session.session() == session.session
            &&& state.local_device_id@ == session.local_device_id
            &&& state.remote_device_id@ == session.remote_device_id
            &&& state.session.is_sorted()
            &&& is_form_of::<DeviceSessionState>(bytes, state@)
        }
}

/// A party is stored in one way.
pub proof fn law_alice_has_one_form(alice: AliceView, left: Seq<u8>, right: Seq<u8>)
    requires
        is_alice_form(left, alice),
        is_alice_form(right, alice),
    ensures
        left == right,
{
    let a = choose|state: AliceState|
        {
            &&& #[trigger] state.party() == alice
            &&& is_sorted_state(state.session)
            &&& is_form_of::<AliceState>(left, state@)
        };
    let b = choose|state: AliceState|
        {
            &&& #[trigger] state.party() == alice
            &&& is_sorted_state(state.session)
            &&& is_form_of::<AliceState>(right, state@)
        };
    lemma_stored_session_has_one_form(a.session, b.session);
    assert(a.party().identity_secret_key == b.party().identity_secret_key);
    assert(a@ =~= b@);
}

/// A party is stored in one way.
pub proof fn law_bob_has_one_form(bob: BobView, left: Seq<u8>, right: Seq<u8>)
    requires
        is_bob_form(left, bob),
        is_bob_form(right, bob),
    ensures
        left == right,
{
    let a = choose|state: BobState|
        {
            &&& #[trigger] state.party() == bob
            &&& is_sorted_state(state.session)
            &&& is_form_of::<BobState>(left, state@)
        };
    let b = choose|state: BobState|
        {
            &&& #[trigger] state.party() == bob
            &&& is_sorted_state(state.session)
            &&& is_form_of::<BobState>(right, state@)
        };
    lemma_stored_session_has_one_form(a.session, b.session);
    assert(a.party().one_time_prekey == b.party().one_time_prekey);
    assert(a@ =~= b@);
}

/// A session is stored in one way.
pub proof fn law_session_has_one_form(session: SessionView, left: Seq<u8>, right: Seq<u8>)
    requires
        is_ratchet_form(left, session),
        is_ratchet_form(right, session),
    ensures
        left == right,
{
    let a = choose|state: RatchetSessionState|
        {
            &&& #[trigger] state.session() == session
            &&& state.is_sorted()
            &&& is_form_of::<RatchetSessionState>(left, state@)
        };
    let b = choose|state: RatchetSessionState|
        {
            &&& #[trigger] state.session() == session
            &&& state.is_sorted()
            &&& is_form_of::<RatchetSessionState>(right, state@)
        };
    law_session_has_one_state(a, b);
    assert(a@ =~= b@);
}

/// The session of two devices is stored in one way.
pub proof fn law_device_session_has_one_form(
    session: DeviceSessionView,
    left: Seq<u8>,
    right: Seq<u8>,
)
    requires
        is_device_session_form(left, session),
        is_device_session_form(right, session),
    ensures
        left == right,
{
    let a = choose|state: DeviceSessionState|
        {
            &&& #[trigger] state.session.session() == session.session
            &&& state.local_device_id@ == session.local_device_id
            &&& state.remote_device_id@ == session.remote_device_id
            &&& state.session.is_sorted()
            &&& is_form_of::<DeviceSessionState>(left, state@)
        };
    let b = choose|state: DeviceSessionState|
        {
            &&& #[trigger] state.session.session() == session.session
            &&& state.local_device_id@ == session.local_device_id
            &&& state.remote_device_id@ == session.remote_device_id
            &&& state.session.is_sorted()
            &&& is_form_of::<DeviceSessionState>(right, state@)
        };
    law_session_has_one_state(a.session, b.session);
    assert(a.session@ =~= b.session@);
    assert(a@ =~= b@);
}

/// The bytes under which a party is stored. The party is restored from them as it is.
pub fn store_alice(alice: &Alice) -> (bytes: Vec<u8>)
    ensures
        is_alice_form(bytes@, alice@),
{
    let state = alice.export_state();
    proof {
        lemma_optional_session(state.session);
        assert(state.party() == alice@);
    }
    encode(&state)
}

/// The party that stored bytes stand for.
pub fn restore_alice(bytes: &[u8]) -> (alice: Option<Alice>)
    ensures
        match alice {
            Some(alice) => stored_alice(bytes@) == Some(alice@),
            None => stored_alice(bytes@) is None,
        },
{
    match decode::<AliceState>(bytes) {
        Some(state) => {
            proof {
                lemma_optional_session(state.session);
            }
            Some(Alice::from_state(state))
        },
        None => None,
    }
}

/// The bytes under which a party is stored. The party is restored from them as it is.
pub fn store_bob(bob: &Bob) -> (bytes: Vec<u8>)
    ensures
        is_bob_form(bytes@, bob@),
{
    let state = bob.export_state();
    proof {
        lemma_optional_session(state.session);
        assert(state.party() == bob@);
    }
    encode(&state)
}

/// The party that stored bytes stand for.
pub fn restore_bob(bytes: &[u8]) -> (bob: Option<Bob>)
    ensures
        match bob {
            Some(bob) => stored_bob(bytes@) == Some(bob@),
            None => stored_bob(bytes@) is None,
        },
{
    match decode::<BobState>(bytes) {
        Some(state) => {
            proof {
                lemma_optional_session(state.session);
            }
            Some(Bob::from_state(state))
        },
        None => None,
    }
}

/// The bytes under which a session is stored.
pub fn store_ratchet(state: &RatchetSessionState) -> (bytes: Vec<u8>)
    ensures
        stored_ratchet(bytes@) == Some(state.session()),
        is_form_of::<RatchetSessionState>(bytes@, state@),
        state.is_sorted() ==> is_ratchet_form(bytes@, state.session()),
{
    proof {
        lemma_session_of_state(*state);
        assert(state.session() == state.session());
    }
    encode(state)
}

/// The session that stored bytes stand for.
pub fn restore_ratchet(bytes: &[u8]) -> (state: Option<RatchetSessionState>)
    ensures
        match state {
            Some(state) => stored_ratchet(bytes@) == Some(state.session()),
            None => stored_ratchet(bytes@) is None,
        },
{
    match decode::<RatchetSessionState>(bytes) {
        Some(state) => {
            proof {
                lemma_session_of_state(state);
            }
            Some(state)
        },
        None => None,
    }
}

/// The bytes under which the session of two devices is stored. It is restored from them
/// as it is.
pub fn store_device_session(session: &DeviceSession) -> (bytes: Vec<u8>)
    ensures
        is_device_session_form(bytes@, session@),
{
    let state = session.export_state();
    proof {
        lemma_session_of_state(state.session);
        assert(state.session.session() == session@.session);
    }
    encode(&state)
}

/// The session of two devices that stored bytes stand for.
pub fn restore_device_session(bytes: &[u8]) -> (session: Option<DeviceSession>)
    ensures
        match session {
            Some(session) => stored_device_session(bytes@) == Some(session@),
            None => stored_device_session(bytes@) is None,
        },
{
    match decode::<DeviceSessionState>(bytes) {
        Some(state) => {
            proof {
                lemma_session_of_state(state.session);
            }
            Some(DeviceSession::from_state(state))
        },
        None => None,
    }
}

} // verus!
