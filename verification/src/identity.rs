//! Signing identities, and what they sign: key exchanges and prekeys.

use crate::bytes::{append_bytes, utf8};
use crate::error::CryptoError;
use crate::primitives::{
    ed25519_accepts, ed25519_public, ed25519_public_key, ed25519_random_secret, ed25519_sign,
    ed25519_signature, ed25519_verify,
};
use crate::ratchet::PublicKeyBytes;
use vstd::prelude::*;

verus! {

pub type IdentityPublicKeyBytes = [u8; 32];

pub type SignatureBytes = Vec<u8>;

pub const SIGNED_KEY_EXCHANGE_CONTEXT: &'static str = "ciphermesh.phase-2b.signed-x25519";

pub const SIGNED_PREKEY_CONTEXT: &'static str = "ciphermesh.phase-2c.signed-prekey";

/// An X25519 public key signed by the identity that offers it.
#[derive(Debug, Clone, PartialEq, Eq)]
pub struct SignedKeyExchange {
    pub identity_public_key: IdentityPublicKeyBytes,
    pub x25519_public_key: PublicKeyBytes,
    pub signature: SignatureBytes,
}

/// What a party publishes so that others can write to it while it is away.
#[derive(Debug, Clone, PartialEq, Eq)]
pub struct PreKeyBundle {
    pub identity_public_key: IdentityPublicKeyBytes,
    pub signed_prekey_public_key: PublicKeyBytes,
    pub signed_prekey_signature: SignatureBytes,
    pub one_time_prekey_id: u64,
    pub one_time_prekey_public_key: PublicKeyBytes,
}

/// The contents of a `PreKeyBundle`.
#[verifier::ext_equal]
pub struct BundleView {
    pub identity_public_key: Seq<u8>,
    pub signed_prekey_public_key: Seq<u8>,
    pub signed_prekey_signature: Seq<u8>,
    pub one_time_prekey_id: u64,
    pub one_time_prekey_public_key: Seq<u8>,
}

impl View for PreKeyBundle {
    type V = BundleView;

    open spec fn view(&self) -> BundleView {
        BundleView {
            identity_public_key: self.identity_public_key@,
            signed_prekey_public_key: self.signed_prekey_public_key@,
            signed_prekey_signature: self.signed_prekey_signature@,
            one_time_prekey_id: self.one_time_prekey_id,
            one_time_prekey_public_key: self.one_time_prekey_public_key@,
        }
    }
}

/// The bytes that an identity signs to offer an X25519 public key.
pub open spec fn key_exchange_bytes(identity: Seq<u8>, x25519: Seq<u8>) -> Seq<u8> {
    utf8(SIGNED_KEY_EXCHANGE_CONTEXT@) + identity + x25519
}

/// The bytes that an identity signs to offer a prekey.
pub open spec fn prekey_bytes(identity: Seq<u8>, prekey: Seq<u8>) -> Seq<u8> {
    utf8(SIGNED_PREKEY_CONTEXT@) + identity + prekey
}

impl SignedKeyExchange {
    /// Whether the identity that the exchange names has signed it.
    pub open spec fn is_signed(self) -> bool {
        ed25519_accepts(
            self.identity_public_key@,
            key_exchange_bytes(self.identity_public_key@, self.x25519_public_key@),
            self.signature@,
        )
    }
}

impl BundleView {
    /// Whether the identity that the bundle names has signed its prekey.
    pub open spec fn is_signed(self) -> bool {
        ed25519_accepts(
            self.identity_public_key,
            prekey_bytes(self.identity_public_key, self.signed_prekey_public_key),
            self.signed_prekey_signature,
        )
    }
}

pub fn signed_key_exchange_bytes(
    identity_public_key: IdentityPublicKeyBytes,
    x25519_public_key: PublicKeyBytes,
) -> (bytes: Vec<u8>)
    ensures
        bytes@ == key_exchange_bytes(identity_public_key@, x25519_public_key@),
{
    let mut bytes: Vec<u8> = Vec::new();
    append_bytes(&mut bytes, SIGNED_KEY_EXCHANGE_CONTEXT.as_bytes());
    append_bytes(&mut bytes, identity_public_key.as_slice());
    append_bytes(&mut bytes, x25519_public_key.as_slice());
    assert(bytes@ =~= key_exchange_bytes(identity_public_key@, x25519_public_key@));
    bytes
}

pub fn signed_prekey_bytes(
    identity_public_key: IdentityPublicKeyBytes,
    signed_prekey_public_key: PublicKeyBytes,
) -> (bytes: Vec<u8>)
    ensures
        bytes@ == prekey_bytes(identity_public_key@, signed_prekey_public_key@),
{
    let mut bytes: Vec<u8> = Vec::new();
    append_bytes(&mut bytes, SIGNED_PREKEY_CONTEXT.as_bytes());
    append_bytes(&mut bytes, identity_public_key.as_slice());
    append_bytes(&mut bytes, signed_prekey_public_key.as_slice());
    assert(bytes@ =~= prekey_bytes(identity_public_key@, signed_prekey_public_key@));
    bytes
}

/// Checks a signature under an identity's public key.
pub fn verify_signature(public_key: &[u8; 32], message: &[u8], signature: &[u8]) -> (verdict:
    Result<(), CryptoError>)
    ensures
        verdict is Ok <==> ed25519_accepts(public_key@, message@, signature@),
        verdict matches Err(error) ==> error == CryptoError::SignatureVerification,
{
    match ed25519_verify(public_key, message, signature) {
        Ok(()) => Ok(()),
        Err(_) => Err(CryptoError::SignatureVerification),
    }
}

pub fn verify_signed_key_exchange(exchange: &SignedKeyExchange) -> (verdict: Result<
    (),
    CryptoError,
>)
    ensures
        verdict is Ok <==> exchange.is_signed(),
        verdict matches Err(error) ==> error == CryptoError::SignatureVerification,
{
    let signed_bytes = signed_key_exchange_bytes(
        exchange.identity_public_key,
        exchange.x25519_public_key,
    );
    verify_signature(
        &exchange.identity_public_key,
        signed_bytes.as_slice(),
        exchange.signature.as_slice(),
    )
}

pub fn verify_signed_prekey(bundle: &PreKeyBundle) -> (verdict: Result<(), CryptoError>)
    ensures
        verdict is Ok <==> bundle@.is_signed(),
        verdict matches Err(error) ==> error == CryptoError::SignatureVerification,
{
    let signed_bytes = signed_prekey_bytes(
        bundle.identity_public_key,
        bundle.signed_prekey_public_key,
    );
    verify_signature(
        &bundle.identity_public_key,
        signed_bytes.as_slice(),
        bundle.signed_prekey_signature.as_slice(),
    )
}

/// An Ed25519 signing key.
pub struct IdentityKeyPair {
    secret_key: [u8; 32],
}

impl IdentityKeyPair {
    /// The secret key.
    pub closed spec fn secret(self) -> Seq<u8> {
        self.secret_key@
    }

    /// A fresh identity.
    pub fn generate() -> (identity: IdentityKeyPair)
        ensures
            identity.secret().len() == 32,
    {
        IdentityKeyPair { secret_key: ed25519_random_secret() }
    }

    pub fn from_secret_bytes(bytes: [u8; 32]) -> (identity: IdentityKeyPair)
        ensures
            identity.secret() == bytes@,
    {
        IdentityKeyPair { secret_key: bytes }
    }

    pub fn public_key(&self) -> (public: IdentityPublicKeyBytes)
        ensures
            public@ == ed25519_public(self.secret()),
    {
        ed25519_public_key(&self.secret_key)
    }

    pub fn secret_key_bytes(&self) -> (secret: [u8; 32])
        ensures
            secret@ == self.secret(),
    {
        self.secret_key
    }

    /// Signs a message. The signature holds under this identity's public key.
    pub fn sign(&self, message: &[u8]) -> (signature: SignatureBytes)
        ensures
            signature@ == ed25519_signature(self.secret(), message@),
            signature@.len() == 64,
            ed25519_accepts(ed25519_public(self.secret()), message@, signature@),
    {
        ed25519_sign(&self.secret_key, message)
    }

    /// Offers an X25519 public key under this identity.
    pub fn sign_key_exchange(&self, x25519_public_key: PublicKeyBytes) -> (exchange:
        SignedKeyExchange)
        ensures
            exchange.identity_public_key@ == ed25519_public(self.secret()),
            exchange.x25519_public_key == x25519_public_key,
            exchange.signature@ == ed25519_signature(
                self.secret(),
                key_exchange_bytes(ed25519_public(self.secret()), x25519_public_key@),
            ),
            exchange.is_signed(),
    {
        let identity_public_key = self.public_key();
        let signed_bytes = signed_key_exchange_bytes(identity_public_key, x25519_public_key);
        let signature = self.sign(signed_bytes.as_slice());
        SignedKeyExchange { identity_public_key, x25519_public_key, signature }
    }

    /// Signs a prekey under this identity.
    pub fn sign_prekey(&self, signed_prekey_public_key: PublicKeyBytes) -> (signature:
        SignatureBytes)
        ensures
            signature@ == ed25519_signature(
                self.secret(),
                prekey_bytes(ed25519_public(self.secret()), signed_prekey_public_key@),
            ),
            ed25519_accepts(
                ed25519_public(self.secret()),
                prekey_bytes(ed25519_public(self.secret()), signed_prekey_public_key@),
                signature@,
            ),
    {
        let signed_bytes = signed_prekey_bytes(self.public_key(), signed_prekey_public_key);
        self.sign(signed_bytes.as_slice())
    }
}

} // verus!
