//! Accounts and their devices: certificates, revocations and the session that one device
//! keeps with another.

use crate::bytes::{
    append_bytes, be_bytes, copy_bytes, copy_text, hex, hex_encode, same_text, to_be_bytes, utf8,
};
use crate::error::CryptoError;
use crate::identity::{verify_signature, IdentityKeyPair, IdentityPublicKeyBytes, SignatureBytes};
use crate::primitives::{
    aead_overruns, ed25519_accepts, ed25519_public, ed25519_signature, sha256, sha256_digest,
    x25519_public,
};
use crate::ratchet::{aead_key, secrets_agree, PublicKeyBytes, X25519KeyPair};
use crate::session::{
    is_sent, is_within_cipher, RatchetMessage, RatchetRole, RatchetSession, RatchetSessionState,
    SessionView,
};
use vstd::prelude::*;
use vstd::slice::slice_subrange;

verus! {

pub type AccountId = String;

pub type DeviceId = String;

pub const DEVICE_CERTIFICATE_CONTEXT: &'static str = "ciphermesh.phase-5a.device-certificate";

pub const DEVICE_REVOCATION_CONTEXT: &'static str = "ciphermesh.phase-5d.device-revocation";

/// The first sixteen bytes of the digest of `bytes`, in hexadecimal.
pub open spec fn short_digest(bytes: Seq<u8>) -> Seq<char> {
    hex(sha256(bytes).subrange(0, 16))
}

/// The account id of a public key.
pub open spec fn account_id_of(public_key: Seq<u8>) -> Seq<char> {
    "acct-"@ + short_digest(public_key)
}

/// The device id of a public key.
pub open spec fn device_id_of(public_key: Seq<u8>) -> Seq<char> {
    "dev-"@ + short_digest(public_key)
}

#[derive(Debug, Clone, PartialEq, Eq)]
pub struct AccountIdentityState {
    pub account_id: AccountId,
    pub account_secret_key: [u8; 32],
}

#[derive(Debug, Clone, PartialEq, Eq)]
pub struct DeviceIdentityState {
    pub account_id: AccountId,
    pub device_id: DeviceId,
    pub device_secret_key: [u8; 32],
    pub device_x25519_private_key: [u8; 32],
}

/// An account's statement that a device is its own.
#[derive(Debug, Clone, PartialEq, Eq)]
pub struct DeviceCertificate {
    pub account_id: AccountId,
    pub device_id: DeviceId,
    pub device_ed25519_public_key: IdentityPublicKeyBytes,
    pub device_x25519_public_key: PublicKeyBytes,
    pub signature: SignatureBytes,
}

/// The contents of a `DeviceCertificate`.
#[verifier::ext_equal]
pub struct CertificateView {
    pub account_id: Seq<char>,
    pub device_id: Seq<char>,
    pub ed25519_public_key: Seq<u8>,
    pub x25519_public_key: Seq<u8>,
    pub signature: Seq<u8>,
}

impl View for DeviceCertificate {
    type V = CertificateView;

    open spec fn view(&self) -> CertificateView {
        CertificateView {
            account_id: self.account_id@,
            device_id: self.device_id@,
            ed25519_public_key: self.device_ed25519_public_key@,
            x25519_public_key: self.device_x25519_public_key@,
            signature: self.signature@,
        }
    }
}

impl CertificateView {
    /// The bytes that the account signs.
    pub open spec fn signed_bytes(self) -> Seq<u8> {
        utf8(DEVICE_CERTIFICATE_CONTEXT@) + utf8(self.account_id) + seq![0u8] + utf8(self.device_id)
            + seq![0u8] + self.ed25519_public_key + self.x25519_public_key
    }

    /// Whether the account with this public key has issued the certificate.
    pub open spec fn is_issued_by(self, account_public_key: Seq<u8>) -> bool {
        &&& self.account_id == account_id_of(account_public_key)
        &&& ed25519_accepts(account_public_key, self.signed_bytes(), self.signature)
    }
}

/// An account's statement that a device is no longer its own.
#[derive(Debug, Clone, PartialEq, Eq)]
pub struct DeviceRevocation {
    pub account_id: AccountId,
    pub device_id: DeviceId,
    pub revocation_counter: u64,
    pub signature: SignatureBytes,
}

/// The contents of a `DeviceRevocation`.
#[verifier::ext_equal]
pub struct RevocationView {
    pub account_id: Seq<char>,
    pub device_id: Seq<char>,
    pub revocation_counter: u64,
    pub signature: Seq<u8>,
}

impl View for DeviceRevocation {
    type V = RevocationView;

    open spec fn view(&self) -> RevocationView {
        RevocationView {
            account_id: self.account_id@,
            device_id: self.device_id@,
            revocation_counter: self.revocation_counter,
            signature: self.signature@,
        }
    }
}

impl RevocationView {
    /// The bytes that the account signs.
    pub open spec fn signed_bytes(self) -> Seq<u8> {
        utf8(DEVICE_REVOCATION_CONTEXT@) + utf8(self.account_id) + seq![0u8] + utf8(self.device_id)
            + seq![0u8] + be_bytes(self.revocation_counter)
    }

    /// Whether the account with this public key has issued the revocation.
    pub open spec fn is_issued_by(self, account_public_key: Seq<u8>) -> bool {
        &&& self.account_id == account_id_of(account_public_key)
        &&& ed25519_accepts(account_public_key, self.signed_bytes(), self.signature)
    }

    /// Whether the revocation is about the device of `certificate`.
    pub open spec fn is_about(self, certificate: CertificateView) -> bool {
        self.account_id == certificate.account_id && self.device_id == certificate.device_id
    }
}

/// The first of the revocations that is about the device of `certificate`.
pub open spec fn first_about(
    revocations: Seq<DeviceRevocation>,
    certificate: CertificateView,
) -> Option<RevocationView>
    decreases revocations.len(),
{
    if revocations.len() == 0 {
        None
    } else if revocations[0]@.is_about(certificate) {
        Some(revocations[0]@)
    } else {
        first_about(revocations.drop_first(), certificate)
    }
}

/// Whether a certificate's device may be written to: `None` where the certificate, or the
/// first revocation of its device, was not issued by the account.
pub open spec fn authorization(
    account_public_key: Seq<u8>,
    certificate: CertificateView,
    revocations: Seq<DeviceRevocation>,
) -> Option<bool> {
    if !certificate.is_issued_by(account_public_key) {
        None
    } else {
        match first_about(revocations, certificate) {
            None => Some(true),
            Some(revocation) => if revocation.is_issued_by(account_public_key) {
                Some(false)
            } else {
                None
            },
        }
    }
}

/// The contents of a list of certificates.
pub open spec fn certificate_views(certificates: Seq<DeviceCertificate>) -> Seq<CertificateView> {
    certificates.map_values(|certificate: DeviceCertificate| certificate@)
}

impl DeviceCertificate {
    /// The same certificate once more.
    pub fn duplicate(&self) -> (copy: DeviceCertificate)
        ensures
            copy@ == self@,
    {
        DeviceCertificate {
            account_id: self.account_id.clone(),
            device_id: self.device_id.clone(),
            device_ed25519_public_key: self.device_ed25519_public_key,
            device_x25519_public_key: self.device_x25519_public_key,
            signature: copy_bytes(self.signature.as_slice()),
        }
    }
}

/// The first sixteen bytes of the digest of `bytes`, in hexadecimal.
pub fn short_hash(bytes: &[u8]) -> (text: String)
    ensures
        text@ == short_digest(bytes@),
{
    let digest = sha256_digest(bytes);
    hex_encode(slice_subrange(digest.as_slice(), 0, 16))
}

pub fn account_id_for_public_key(public_key: IdentityPublicKeyBytes) -> (id: AccountId)
    ensures
        id@ == account_id_of(public_key@),
{
    let mut id = copy_text("acct-");
    id.push_str(short_hash(public_key.as_slice()).as_str());
    id
}

pub fn device_id_for_public_key(public_key: IdentityPublicKeyBytes) -> (id: DeviceId)
    ensures
        id@ == device_id_of(public_key@),
{
    let mut id = copy_text("dev-");
    id.push_str(short_hash(public_key.as_slice()).as_str());
    id
}

pub fn device_certificate_bytes(certificate: &DeviceCertificate) -> (bytes: Vec<u8>)
    ensures
        bytes@ == certificate@.signed_bytes(),
{
    let mut bytes: Vec<u8> = Vec::new();
    append_bytes(&mut bytes, DEVICE_CERTIFICATE_CONTEXT.as_bytes());
    append_bytes(&mut bytes, certificate.account_id.as_str().as_bytes());
    bytes.push(0);
    append_bytes(&mut bytes, certificate.device_id.as_str().as_bytes());
    bytes.push(0);
    append_bytes(&mut bytes, certificate.device_ed25519_public_key.as_slice());
    append_bytes(&mut bytes, certificate.device_x25519_public_key.as_slice());
    assert(bytes@ =~= certificate@.signed_bytes());
    bytes
}

pub fn device_revocation_bytes(revocation: &DeviceRevocation) -> (bytes: Vec<u8>)
    ensures
        bytes@ == revocation@.signed_bytes(),
{
    let mut bytes: Vec<u8> = Vec::new();
    append_bytes(&mut bytes, DEVICE_REVOCATION_CONTEXT.as_bytes());
    append_bytes(&mut bytes, revocation.account_id.as_str().as_bytes());
    bytes.push(0);
    append_bytes(&mut bytes, revocation.device_id.as_str().as_bytes());
    bytes.push(0);
    append_bytes(&mut bytes, to_be_bytes(revocation.revocation_counter).as_slice());
    assert(bytes@ =~= revocation@.signed_bytes());
    bytes
}

/// Checks that the account with this public key has issued the certificate.
pub fn verify_device_certificate(
    account_public_key: IdentityPublicKeyBytes,
    certificate: &DeviceCertificate,
) -> (verdict: Result<(), CryptoError>)
    ensures
        verdict is Ok <==> certificate@.is_issued_by(account_public_key@),
        verdict matches Err(error) ==> error == CryptoError::SignatureVerification,
{
    let expected = account_id_for_public_key(account_public_key);
    if !same_text(certificate.account_id.as_str(), expected.as_str()) {
        return Err(CryptoError::SignatureVerification);
    }
    let signed_bytes = device_certificate_bytes(certificate);
    verify_signature(&account_public_key, signed_bytes.as_slice(), certificate.signature.as_slice())
}

/// Checks that two certificates are of two different devices of the account.
pub fn verify_authorized_sibling_devices(
    account_public_key: IdentityPublicKeyBytes,
    first: &DeviceCertificate,
    second: &DeviceCertificate,
) -> (verdict: Result<(), CryptoError>)
    ensures
        verdict is Ok <==> {
            &&& first@.is_issued_by(account_public_key@)
            &&& second@.is_issued_by(account_public_key@)
            &&& first.device_id@ != second.device_id@
        },
        verdict matches Err(error) ==> error == CryptoError::SignatureVerification,
{
    verify_device_certificate(account_public_key, first)?;
    verify_device_certificate(account_public_key, second)?;
    if !same_text(first.account_id.as_str(), second.account_id.as_str()) || same_text(
        first.device_id.as_str(),
        second.device_id.as_str(),
    ) {
        return Err(CryptoError::SignatureVerification);
    }
    Ok(())
}

/// Checks that the account with this public key has issued the revocation.
pub fn verify_device_revocation(
    account_public_key: IdentityPublicKeyBytes,
    revocation: &DeviceRevocation,
) -> (verdict: Result<(), CryptoError>)
    ensures
        verdict is Ok <==> revocation@.is_issued_by(account_public_key@),
        verdict matches Err(error) ==> error == CryptoError::SignatureVerification,
{
    let expected = account_id_for_public_key(account_public_key);
    if !same_text(revocation.account_id.as_str(), expected.as_str()) {
        return Err(CryptoError::SignatureVerification);
    }
    let signed_bytes = device_revocation_bytes(revocation);
    verify_signature(&account_public_key, signed_bytes.as_slice(), revocation.signature.as_slice())
}

/// Whether the device of a certificate may be written to, given the known revocations.
pub fn is_device_currently_authorized(
    account_public_key: IdentityPublicKeyBytes,
    certificate: &DeviceCertificate,
    revocations: &[DeviceRevocation],
) -> (authorized: Result<bool, CryptoError>)
    ensures
        match authorized {
            Ok(authorized) => authorization(account_public_key@, certificate@, revocations@) == Some(
                authorized,
            ),
            Err(error) => authorization(account_public_key@, certificate@, revocations@) is None
                && error == CryptoError::SignatureVerification,
        },
{
    verify_device_certificate(account_public_key, certificate)?;
    assert(revocations@.skip(0) =~= revocations@);
    let mut i: usize = 0;
    while i < revocations.len()
        invariant
            i <= revocations@.len(),
            certificate@.is_issued_by(account_public_key@),
            first_about(revocations@, certificate@) == first_about(
                revocations@.skip(i as int),
                certificate@,
            ),
        decreases revocations@.len() - i,
    {
        let revocation = &revocations[i];
        assert(revocations@.skip(i as int)[0] == revocation);
        assert(revocations@.skip(i as int).drop_first() =~= revocations@.skip(i + 1));
        if same_text(revocation.account_id.as_str(), certificate.account_id.as_str()) && same_text(
            revocation.device_id.as_str(),
            certificate.device_id.as_str(),
        ) {
            verify_device_revocation(account_public_key, revocation)?;
            return Ok(false);
        }
        i += 1;
    }
    Ok(true)
}

/// The certificates whose devices may be written to, in their order.
pub fn active_device_certificates(
    account_public_key: IdentityPublicKeyBytes,
    certificates: &[DeviceCertificate],
    revocations: &[DeviceRevocation],
) -> (active: Result<Vec<DeviceCertificate>, CryptoError>)
    ensures
        match active {
            Ok(active) => {
                &&& forall|i: int|
                    0 <= i < certificates@.len() ==> authorization(
                        account_public_key@,
                        (#[trigger] certificates@[i])@,
                        revocations@,
                    ) is Some
                &&& certificate_views(active@) == certificate_views(certificates@).filter(
                    |certificate: CertificateView|
                        authorization(account_public_key@, certificate, revocations@) == Some(true),
                )
            },
            Err(error) => {
                &&& error == CryptoError::SignatureVerification
                &&& exists|i: int|
                    0 <= i < certificates@.len() && authorization(
                        account_public_key@,
                        (#[trigger] certificates@[i])@,
                        revocations@,
                    ) is None
            },
        },
{
    let ghost is_active = |certificate: CertificateView|
        authorization(account_public_key@, certificate, revocations@) == Some(true);
    let mut active: Vec<DeviceCertificate> = Vec::new();
    let mut i: usize = 0;
    proof {
        reveal(Seq::filter);
        assert(certificate_views(active@) =~= certificate_views(certificates@.take(0)).filter(
            is_active,
        ));
    }
    while i < certificates.len()
        invariant
            i <= certificates@.len(),
            is_active == (|certificate: CertificateView|
                authorization(account_public_key@, certificate, revocations@) == Some(true)),
            forall|k: int|
                0 <= k < i ==> authorization(
                    account_public_key@,
                    (#[trigger] certificates@[k])@,
                    revocations@,
                ) is Some,
            certificate_views(active@) == certificate_views(certificates@.take(i as int)).filter(
                is_active,
            ),
        decreases certificates@.len() - i,
    {
        let authorized = is_device_currently_authorized(
            account_public_key,
            &certificates[i],
            revocations,
        )?;
        let ghost before = certificate_views(certificates@.take(i as int));
        let ghost after = certificate_views(certificates@.take(i + 1));
        let ghost kept = active@;
        if authorized {
            active.push(certificates[i].duplicate());
        }
        proof {
            reveal(Seq::filter);
            assert(after.drop_last() =~= before);
            assert(after.last() == certificates@[i as int]@);
            if authorized {
                assert(certificate_views(active@) =~= certificate_views(kept).push(
                    certificates@[i as int]@,
                ));
            }
        }
        i += 1;
    }
    assert(certificates@.take(i as int) =~= certificates@);
    Ok(active)
}

/// The root identity of a user.
pub struct AccountIdentity {
    account_id: AccountId,
    identity: IdentityKeyPair,
}

/// The contents of an `AccountIdentity`.
#[verifier::ext_equal]
pub struct AccountView {
    pub account_id: Seq<char>,
    pub secret_key: Seq<u8>,
}

impl View for AccountIdentity {
    type V = AccountView;

    closed spec fn view(&self) -> AccountView {
        AccountView { account_id: self.account_id@, secret_key: self.identity.secret() }
    }
}

impl AccountView {
    pub open spec fn public_key(self) -> Seq<u8> {
        ed25519_public(self.secret_key)
    }

    /// Whether the account id is that of the account's own key.
    pub open spec fn is_own_id(self) -> bool {
        self.account_id == account_id_of(self.public_key())
    }
}

impl AccountIdentity {
    /// A fresh account.
    pub fn generate() -> (account: AccountIdentity)
        ensures
            account@.is_own_id(),
            account@.secret_key.len() == 32,
    {
        let identity = IdentityKeyPair::generate();
        let account_id = account_id_for_public_key(identity.public_key());
        AccountIdentity { account_id, identity }
    }

    pub fn from_state(state: AccountIdentityState) -> (account: AccountIdentity)
        ensures
            account@ == (AccountView {
                account_id: state.account_id@,
                secret_key: state.account_secret_key@,
            }),
    {
        AccountIdentity {
            account_id: state.account_id,
            identity: IdentityKeyPair::from_secret_bytes(state.account_secret_key),
        }
    }

    pub fn export_state(&self) -> (state: AccountIdentityState)
        ensures
            state.account_id@ == self@.account_id,
            state.account_secret_key@ == self@.secret_key,
    {
        AccountIdentityState {
            account_id: self.account_id.clone(),
            account_secret_key: self.identity.secret_key_bytes(),
        }
    }

    pub fn account_id(&self) -> (id: &str)
        ensures
            id@ == self@.account_id,
    {
        self.account_id.as_str()
    }

    pub fn public_key(&self) -> (public: IdentityPublicKeyBytes)
        ensures
            public@ == self@.public_key(),
    {
        self.identity.public_key()
    }

    /// Certifies a device. Everyone who knows the account's public key accepts the
    /// certificate.
    pub fn authorize_device(&self, device: &DeviceIdentity) -> (certificate: DeviceCertificate)
        ensures
            certificate@ == (CertificateView {
                account_id: self@.account_id,
                device_id: device@.device_id,
                ed25519_public_key: device@.ed25519_public_key(),
                x25519_public_key: device@.x25519_public_key(),
                signature: ed25519_signature(self@.secret_key, certificate@.signed_bytes()),
            }),
            certificate@.is_issued_by(self@.public_key()) == self@.is_own_id(),
    {
        let mut certificate = DeviceCertificate {
            account_id: self.account_id.clone(),
            device_id: device.device_id.clone(),
            device_ed25519_public_key: device.signing.public_key(),
            device_x25519_public_key: device.x25519.public_key(),
            signature: Vec::new(),
        };
        let signed_bytes = device_certificate_bytes(&certificate);
        certificate.signature = self.identity.sign(signed_bytes.as_slice());
        certificate
    }

    /// Revokes a device. Everyone who knows the account's public key accepts the
    /// revocation.
    pub fn revoke_device(&self, device_id: &str, revocation_counter: u64) -> (revocation:
        DeviceRevocation)
        ensures
            revocation@ == (RevocationView {
                account_id: self@.account_id,
                device_id: device_id@,
                revocation_counter,
                signature: ed25519_signature(self@.secret_key, revocation@.signed_bytes()),
            }),
            revocation@.is_issued_by(self@.public_key()) == self@.is_own_id(),
    {
        let mut revocation = DeviceRevocation {
            account_id: self.account_id.clone(),
            device_id: copy_text(device_id),
            revocation_counter,
            signature: Vec::new(),
        };
        let signed_bytes = device_revocation_bytes(&revocation);
        revocation.signature = self.identity.sign(signed_bytes.as_slice());
        revocation
    }
}

/// One device of an account, with keys of its own.
pub struct DeviceIdentity {
    account_id: AccountId,
    device_id: DeviceId,
    signing: IdentityKeyPair,
    x25519: X25519KeyPair,
}

/// The contents of a `DeviceIdentity`.
#[verifier::ext_equal]
pub struct DeviceView {
    pub account_id: Seq<char>,
    pub device_id: Seq<char>,
    pub secret_key: Seq<u8>,
    pub x25519_private_key: Seq<u8>,
}

impl View for DeviceIdentity {
    type V = DeviceView;

    closed spec fn view(&self) -> DeviceView {
        DeviceView {
            account_id: self.account_id@,
            device_id: self.device_id@,
            secret_key: self.signing.secret(),
            x25519_private_key: self.x25519.secret(),
        }
    }
}

impl DeviceView {
    pub open spec fn ed25519_public_key(self) -> Seq<u8> {
        ed25519_public(self.secret_key)
    }

    pub open spec fn x25519_public_key(self) -> Seq<u8> {
        x25519_public(self.x25519_private_key)
    }
}

impl DeviceIdentity {
    /// A fresh device of an account.
    pub fn generate(account_id: &str) -> (device: DeviceIdentity)
        ensures
            device@.account_id == account_id@,
            device@.device_id == device_id_of(device@.ed25519_public_key()),
            device@.secret_key.len() == 32,
            device@.x25519_private_key.len() == 32,
    {
        let signing = IdentityKeyPair::generate();
        let x25519 = X25519KeyPair::generate();
        let device_id = device_id_for_public_key(signing.public_key());
        DeviceIdentity { account_id: copy_text(account_id), device_id, signing, x25519 }
    }

    pub fn from_state(state: DeviceIdentityState) -> (device: DeviceIdentity)
        ensures
            device@ == (DeviceView {
                account_id: state.account_id@,
                device_id: state.device_id@,
                secret_key: state.device_secret_key@,
                x25519_private_key: state.device_x25519_private_key@,
            }),
    {
        DeviceIdentity {
            account_id: state.account_id,
            device_id: state.device_id,
            signing: IdentityKeyPair::from_secret_bytes(state.device_secret_key),
            x25519: X25519KeyPair::from_private_bytes(state.device_x25519_private_key),
        }
    }

    pub fn export_state(&self) -> (state: DeviceIdentityState)
        ensures
            state.account_id@ == self@.account_id,
            state.device_id@ == self@.device_id,
            state.device_secret_key@ == self@.secret_key,
            state.device_x25519_private_key@ == self@.x25519_private_key,
    {
        DeviceIdentityState {
            account_id: self.account_id.clone(),
            device_id: self.device_id.clone(),
            device_secret_key: self.signing.secret_key_bytes(),
            device_x25519_private_key: self.x25519.private_key_bytes(),
        }
    }

    pub fn account_id(&self) -> (id: &str)
        ensures
            id@ == self@.account_id,
    {
        self.account_id.as_str()
    }

    pub fn device_id(&self) -> (id: &str)
        ensures
            id@ == self@.device_id,
    {
        self.device_id.as_str()
    }

    pub fn ed25519_public_key(&self) -> (public: IdentityPublicKeyBytes)
        ensures
            public@ == self@.ed25519_public_key(),
    {
        self.signing.public_key()
    }

    pub fn x25519_public_key(&self) -> (public: PublicKeyBytes)
        ensures
            public@ == self@.x25519_public_key(),
    {
        self.x25519.public_key()
    }

    /// Starts a session towards a device whose certificate the remote account has issued.
    pub fn create_outbound_session(
        &self,
        remote_account_public_key: IdentityPublicKeyBytes,
        remote_certificate: &DeviceCertificate,
    ) -> (session: Result<DeviceSession, CryptoError>)
        ensures
            session is Ok <==> remote_certificate@.is_issued_by(remote_account_public_key@),
            session matches Err(error) ==> error == CryptoError::SignatureVerification,
            session matches Ok(session) ==> session@ == (DeviceSessionView {
                local_device_id: self@.device_id,
                remote_device_id: remote_certificate@.device_id,
                session: SessionView::start(
                    aead_key(self@.x25519_private_key, remote_certificate@.x25519_public_key),
                    RatchetRole::Alice,
                    self@.x25519_private_key,
                    remote_certificate@.x25519_public_key,
                ),
            }),
            session is Ok ==> forall|peer: Seq<u8>| #[trigger]
                x25519_public(peer) == remote_certificate@.x25519_public_key && peer.len() == 32
                    ==> secrets_agree(self@.x25519_private_key, peer),
    {
        verify_device_certificate(remote_account_public_key, remote_certificate)?;
        let key = self.x25519.derive_aead_key(remote_certificate.device_x25519_public_key)?;
        let session = RatchetSession::new(
            key,
            RatchetRole::Alice,
            self.x25519.duplicate(),
            remote_certificate.device_x25519_public_key,
        )?;
        Ok(
            DeviceSession {
                local_device_id: self.device_id.clone(),
                remote_device_id: remote_certificate.device_id.clone(),
                session,
            },
        )
    }

    /// Starts the other side of a session that a remote device has started.
    pub fn create_inbound_session(
        &self,
        remote_device_id: &str,
        remote_device_x25519_public_key: PublicKeyBytes,
    ) -> (session: Result<DeviceSession, CryptoError>)
        ensures
            session matches Ok(session) && session@ == (DeviceSessionView {
                local_device_id: self@.device_id,
                remote_device_id: remote_device_id@,
                session: SessionView::start(
                    aead_key(self@.x25519_private_key, remote_device_x25519_public_key@),
                    RatchetRole::Bob,
                    self@.x25519_private_key,
                    remote_device_x25519_public_key@,
                ),
            }),
            forall|peer: Seq<u8>| #[trigger]
                x25519_public(peer) == remote_device_x25519_public_key@ && peer.len() == 32
                    ==> secrets_agree(self@.x25519_private_key, peer),
    {
        let key = self.x25519.derive_aead_key(remote_device_x25519_public_key)?;
        let session = RatchetSession::new(
            key,
            RatchetRole::Bob,
            self.x25519.duplicate(),
            remote_device_x25519_public_key,
        )?;
        Ok(
            DeviceSession {
                local_device_id: self.device_id.clone(),
                remote_device_id: copy_text(remote_device_id),
                session,
            },
        )
    }
}

#[derive(Debug, Clone, PartialEq, Eq)]
pub struct DeviceSessionState {
    pub local_device_id: DeviceId,
    pub remote_device_id: DeviceId,
    pub session: RatchetSessionState,
}

/// One encrypted message on its way from one device to another.
#[derive(Debug, Clone, PartialEq, Eq)]
pub struct DeviceDeliveryEnvelope {
    pub logical_message_id: String,
    pub sender_device_id: DeviceId,
    pub recipient_device_id: DeviceId,
    pub message: RatchetMessage,
}

/// The session that one device keeps with another.
pub struct DeviceSession {
    local_device_id: DeviceId,
    remote_device_id: DeviceId,
    session: RatchetSession,
}

/// The contents of a `DeviceSession`.
#[verifier::ext_equal]
pub struct DeviceSessionView {
    pub local_device_id: Seq<char>,
    pub remote_device_id: Seq<char>,
    pub session: SessionView,
}

impl View for DeviceSession {
    type V = DeviceSessionView;

    closed spec fn view(&self) -> DeviceSessionView {
        DeviceSessionView {
            local_device_id: self.local_device_id@,
            remote_device_id: self.remote_device_id@,
            session: self.session@,
        }
    }
}

impl DeviceSessionView {
    /// Whether an envelope travels from the remote to the local device of the session.
    pub open spec fn expects(self, envelope: DeviceDeliveryEnvelope) -> bool {
        &&& envelope.recipient_device_id@ == self.local_device_id
        &&& envelope.sender_device_id@ == self.remote_device_id
    }
}

impl DeviceSession {
    pub fn from_state(state: DeviceSessionState) -> (session: DeviceSession)
        ensures
            session@ == (DeviceSessionView {
                local_device_id: state.local_device_id@,
                remote_device_id: state.remote_device_id@,
                session: state.session.session(),
            }),
    {
        DeviceSession {
            local_device_id: state.local_device_id,
            remote_device_id: state.remote_device_id,
            session: RatchetSession::from_state(state.session),
        }
    }

    pub fn export_state(&self) -> (state: DeviceSessionState)
        ensures
            self@ == (DeviceSessionView {
                local_device_id: state.local_device_id@,
                remote_device_id: state.remote_device_id@,
                session: state.session.session(),
            }),
            state.session.is_sorted(),
    {
        DeviceSessionState {
            local_device_id: self.local_device_id.clone(),
            remote_device_id: self.remote_device_id.clone(),
            session: self.session.state(),
        }
    }

    pub fn local_device_id(&self) -> (id: &str)
        ensures
            id@ == self@.local_device_id,
    {
        self.local_device_id.as_str()
    }

    pub fn remote_device_id(&self) -> (id: &str)
        ensures
            id@ == self@.remote_device_id,
    {
        self.remote_device_id.as_str()
    }

    /// Encrypts a message for the remote device.
    pub fn encrypt(&mut self, logical_message_id: &str, plaintext: &str) -> (envelope: Result<
        DeviceDeliveryEnvelope,
        CryptoError,
    >)
        requires
            old(self)@.session.can_send(),
            !aead_overruns(utf8(plaintext@).len() as int),
        ensures
            final(self)@ == (DeviceSessionView {
                session: old(self)@.session.send_advanced(),
                ..old(self)@
            }),
            envelope is Err <==> utf8(plaintext@).len() >= 64 * 0xffff_ffff,
            envelope matches Err(error) ==> error == CryptoError::Encrypt,
            envelope matches Ok(envelope) ==> {
                &&& envelope.logical_message_id@ == logical_message_id@
                &&& envelope.sender_device_id@ == old(self)@.local_device_id
                &&& envelope.recipient_device_id@ == old(self)@.remote_device_id
                &&& is_sent(old(self)@.session, envelope.message@, plaintext@)
            },
    {
        let message = self.session.encrypt(plaintext)?;
        Ok(
            DeviceDeliveryEnvelope {
                logical_message_id: copy_text(logical_message_id),
                sender_device_id: self.local_device_id.clone(),
                recipient_device_id: self.remote_device_id.clone(),
                message,
            },
        )
    }

    /// Decrypts an envelope of the remote device. One that is not on its way between the
    /// two devices of the session is refused and changes nothing.
    pub fn decrypt(&mut self, envelope: &DeviceDeliveryEnvelope) -> (text: Result<
        String,
        CryptoError,
    >)
        requires
            old(self)@.expects(*envelope) ==> {
                &&& old(self)@.session.can_receive(envelope.message@)
                &&& !aead_overruns(envelope.message.ciphertext@.len() - 16)
            },
        ensures
            !old(self)@.expects(*envelope) ==> final(self)@ == old(self)@ && text == Err::<
                String,
                CryptoError,
            >(CryptoError::Decrypt),
            old(self)@.expects(*envelope) ==> {
                let (session, read) = old(self)@.session.receiving(envelope.message@);
                &&& final(self)@ == (DeviceSessionView { session, ..old(self)@ })
                &&& match text {
                    Ok(text) => read == Ok::<Seq<char>, CryptoError>(text@),
                    Err(error) => read == Err::<Seq<char>, CryptoError>(error),
                }
            },
    {
        if !same_text(envelope.recipient_device_id.as_str(), self.local_device_id.as_str())
            || !same_text(envelope.sender_device_id.as_str(), self.remote_device_id.as_str()) {
            return Err(CryptoError::Decrypt);
        }
        self.session.decrypt(&envelope.message)
    }

    /// Whether an envelope can be handed to the session: the message counter can count it,
    /// and the cipher answers on it. One that is for others can, for it is refused unread.
    pub fn can_decrypt(&self, envelope: &DeviceDeliveryEnvelope) -> (answer: bool)
        ensures
            answer == (self@.expects(*envelope) ==> {
                &&& self@.session.can_receive(envelope.message@)
                &&& !aead_overruns(envelope.message.ciphertext@.len() - 16)
            }),
    {
        if !same_text(envelope.recipient_device_id.as_str(), self.local_device_id.as_str())
            || !same_text(envelope.sender_device_id.as_str(), self.remote_device_id.as_str()) {
            return true;
        }
        self.session.can_receive(&envelope.message) && is_within_cipher(&envelope.message)
    }

    pub fn session_state(&self) -> (state: RatchetSessionState)
        ensures
            state.session() == self@.session,
            state.is_sorted(),
    {
        self.session.state()
    }
}

/// The first revocation about a device decides: where a list holds one at all, there is
/// a first one, and it is about that device.
proof fn lemma_first_about(revocations: Seq<DeviceRevocation>, certificate: CertificateView)
    ensures
        match first_about(revocations, certificate) {
            None => forall|i: int|
                0 <= i < revocations.len() ==> !(#[trigger] revocations[i])@.is_about(certificate),
            Some(first) => first.is_about(certificate) && exists|i: int|
                0 <= i < revocations.len() && (#[trigger] revocations[i])@ == first,
        },
    decreases revocations.len(),
{
    if revocations.len() > 0 && !revocations[0]@.is_about(certificate) {
        let rest = revocations.drop_first();
        lemma_first_about(rest, certificate);
        match first_about(rest, certificate) {
            None => {
                assert forall|i: int| 0 <= i < revocations.len() implies !(
                #[trigger] revocations[i])@.is_about(certificate) by {
                    if i > 0 {
                        assert(rest[i - 1] == revocations[i]);
                    }
                }
            },
            Some(first) => {
                let i = choose|i: int| 0 <= i < rest.len() && (#[trigger] rest[i])@ == first;
                assert(revocations[i + 1]@ == first);
            },
        }
    }
}

/// A device of which a revocation is known is never authorized.
pub proof fn law_revoked_device_is_not_authorized(
    account_public_key: Seq<u8>,
    certificate: CertificateView,
    revocations: Seq<DeviceRevocation>,
    i: int,
)
    requires
        0 <= i < revocations.len(),
        revocations[i]@.is_about(certificate),
    ensures
        authorization(account_public_key, certificate, revocations) != Some(true),
        (forall|k: int|
            0 <= k < revocations.len() ==> (#[trigger] revocations[k])@.is_issued_by(
                account_public_key,
            )) && certificate.is_issued_by(account_public_key) ==> authorization(
            account_public_key,
            certificate,
            revocations,
        ) == Some(false),
{
    lemma_first_about(revocations, certificate);
}

/// An issued certificate that no revocation is about stays authorized.
pub proof fn law_unrevoked_device_is_authorized(
    account_public_key: Seq<u8>,
    certificate: CertificateView,
    revocations: Seq<DeviceRevocation>,
)
    requires
        certificate.is_issued_by(account_public_key),
        forall|k: int|
            0 <= k < revocations.len() ==> !(#[trigger] revocations[k])@.is_about(certificate),
    ensures
        authorization(account_public_key, certificate, revocations) == Some(true),
{
    lemma_first_about(revocations, certificate);
}

} // verus!
