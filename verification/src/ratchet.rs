//! The double ratchet: X25519 key pairs, key chains and the session that encrypts and
//! decrypts numbered messages.

use crate::bytes::{append_bytes, be_bytes, take_32, to_be_bytes, utf8};
use crate::error::CryptoError;
use crate::primitives::{
    hkdf_sha256, hkdf_sha256_derive, x25519_diffie_hellman, x25519_public, x25519_public_key,
    x25519_random_private, x25519_shared,
};
use vstd::prelude::*;

verus! {

pub type PublicKeyBytes = [u8; 32];

pub const LOCAL_AAD: &'static str = "ciphermesh.local.alice-to-bob.v1";

pub const HKDF_INFO: &'static str = "ciphermesh.phase-2a.x25519.chacha20poly1305";

pub const PREKEY_HKDF_INFO: &'static str = "ciphermesh.phase-2c.prekey-initial-session";

pub const INITIAL_CHAIN_INFO: &'static str = "ciphermesh.phase-2d.initial-chains";

pub const CHAIN_STEP_INFO: &'static str = "ciphermesh.phase-2d.chain-step";

pub const DH_RATCHET_INFO: &'static str = "ciphermesh.phase-2d.dh-ratchet";

/// How many message keys a session keeps for messages that have not arrived yet.
pub const MAX_SKIPPED_MESSAGE_KEYS: usize = 8;

/// Whether two private keys give the same secret from each other's public keys.
pub open spec fn secrets_agree(a: Seq<u8>, b: Seq<u8>) -> bool {
    x25519_shared(a, x25519_public(b)) == x25519_shared(b, x25519_public(a))
}

/// The session key that a private key and a peer's public key lead to.
pub open spec fn aead_key(private: Seq<u8>, peer: Seq<u8>) -> Seq<u8> {
    hkdf_sha256(None, x25519_shared(private, peer), utf8(HKDF_INFO@), 32)
}

/// The session key that the two secrets of a prekey handshake lead to.
pub open spec fn prekey_aead_key(first: Seq<u8>, second: Seq<u8>) -> Seq<u8> {
    hkdf_sha256(None, first + second, utf8(PREKEY_HKDF_INFO@), 32)
}

/// The key chain from Alice to Bob that a root key starts.
pub open spec fn alice_chain(root: Seq<u8>) -> Seq<u8> {
    hkdf_sha256(None, root, utf8(INITIAL_CHAIN_INFO@), 64).subrange(0, 32)
}

/// The key chain from Bob to Alice that a root key starts.
pub open spec fn bob_chain(root: Seq<u8>) -> Seq<u8> {
    hkdf_sha256(None, root, utf8(INITIAL_CHAIN_INFO@), 64).subrange(32, 64)
}

/// The chain key after `chain`.
pub open spec fn next_chain_key(chain: Seq<u8>) -> Seq<u8> {
    hkdf_sha256(None, chain, utf8(CHAIN_STEP_INFO@), 64).subrange(0, 32)
}

/// The key of the one message that `chain` stands at.
pub open spec fn message_key(chain: Seq<u8>) -> Seq<u8> {
    hkdf_sha256(None, chain, utf8(CHAIN_STEP_INFO@), 64).subrange(32, 64)
}

/// The chain key `steps` steps after `chain`.
pub open spec fn chain_after(chain: Seq<u8>, steps: nat) -> Seq<u8>
    decreases steps,
{
    if steps == 0 {
        chain
    } else {
        next_chain_key(chain_after(chain, (steps - 1) as nat))
    }
}

/// The key of message `number` of the chain that starts at `chain`.
pub open spec fn message_key_at(chain: Seq<u8>, number: u64) -> Seq<u8> {
    message_key(chain_after(chain, number as nat))
}

/// What a Diffie-Hellman ratchet step derives: the next root key, then the chain from
/// Alice to Bob, then the chain from Bob to Alice.
pub open spec fn dh_ratchet_output(root: Seq<u8>, dh_output: Seq<u8>) -> Seq<u8> {
    hkdf_sha256(Some(root), dh_output, utf8(DH_RATCHET_INFO@), 96)
}

/// The nonce of a message number: four zero bytes and the number.
pub open spec fn nonce_bytes(number: u64) -> Seq<u8> {
    seq![0u8, 0u8, 0u8, 0u8] + be_bytes(number)
}

/// The associated data of a message: it binds the number and the ratchet key.
pub open spec fn aad_bytes(number: u64, ratchet_public_key: Seq<u8>) -> Seq<u8> {
    utf8(LOCAL_AAD@) + be_bytes(number) + ratchet_public_key
}

fn derive_bytes(
    salt: Option<&[u8; 32]>,
    ikm: &[u8],
    info: &str,
    len: usize,
) -> (output: Result<Vec<u8>, CryptoError>)
    ensures
        output is Err <==> len > 255 * 32,
        output matches Err(error) ==> error == CryptoError::KeyDerivation,
        output matches Ok(bytes) ==> bytes@.len() == len && bytes@ == hkdf_sha256(
            match salt {
                Some(salt) => Some(salt@),
                None => None,
            },
            ikm@,
            utf8(info@),
            len as nat,
        ),
{
    match hkdf_sha256_derive(salt, ikm, info.as_bytes(), len) {
        Ok(bytes) => Ok(bytes),
        Err(_) => Err(CryptoError::KeyDerivation),
    }
}

/// An X25519 key pair.
pub struct X25519KeyPair {
    private: [u8; 32],
    public: [u8; 32],
}

impl X25519KeyPair {
    #[verifier::type_invariant]
    spec fn public_belongs_to_private(self) -> bool {
        self.public@ == x25519_public(self.private@)
    }

    /// The private key.
    pub closed spec fn secret(self) -> Seq<u8> {
        self.private@
    }

    /// A fresh key pair.
    pub fn generate() -> (keys: X25519KeyPair)
        ensures
            keys.secret().len() == 32,
    {
        X25519KeyPair::from_private_bytes(x25519_random_private())
    }

    pub fn from_private_bytes(bytes: [u8; 32]) -> (keys: X25519KeyPair)
        ensures
            keys.secret() == bytes@,
    {
        let public = x25519_public_key(&bytes);
        X25519KeyPair { private: bytes, public }
    }

    /// The same key pair once more.
    pub fn duplicate(&self) -> (keys: X25519KeyPair)
        ensures
            keys.secret() == self.secret(),
    {
        X25519KeyPair::from_private_bytes(self.private)
    }

    pub fn public_key(&self) -> (public: PublicKeyBytes)
        ensures
            public@ == x25519_public(self.secret()),
    {
        proof {
            use_type_invariant(self);
        }
        self.public
    }

    pub fn private_key_bytes(&self) -> (private: [u8; 32])
        ensures
            private@ == self.secret(),
    {
        self.private
    }

    /// The session key shared with the owner of `peer_public_key`.
    pub fn derive_aead_key(&self, peer_public_key: PublicKeyBytes) -> (key: Result<
        [u8; 32],
        CryptoError,
    >)
        ensures
            key matches Ok(key) && key@ == aead_key(self.secret(), peer_public_key@),
            forall|peer: Seq<u8>| #[trigger]
                x25519_public(peer) == peer_public_key@ && peer.len() == 32 ==> secrets_agree(
                    self.secret(),
                    peer,
                ),
    {
        let shared = self.dh_bytes(peer_public_key);
        let derived = derive_bytes(None, shared.as_slice(), HKDF_INFO, 32)?;
        let key = take_32(derived.as_slice(), 0);
        assert(derived@.subrange(0, 32) =~= derived@);
        Ok(key)
    }

    /// The Diffie-Hellman secret shared with the owner of `peer_public_key`.
    pub fn dh_bytes(&self, peer_public_key: PublicKeyBytes) -> (shared: [u8; 32])
        ensures
            shared@ == x25519_shared(self.secret(), peer_public_key@),
            forall|peer: Seq<u8>| #[trigger]
                x25519_public(peer) == peer_public_key@ && peer.len() == 32 ==> secrets_agree(
                    self.secret(),
                    peer,
                ),
    {
        x25519_diffie_hellman(&self.private, &peer_public_key)
    }
}

/// The session key of a prekey handshake, from its two Diffie-Hellman secrets.
pub fn derive_prekey_aead_key(first_dh: [u8; 32], second_dh: [u8; 32]) -> (key: Result<
    [u8; 32],
    CryptoError,
>)
    ensures
        key matches Ok(key) && key@ == prekey_aead_key(first_dh@, second_dh@),
{
    let mut key_material: Vec<u8> = Vec::new();
    append_bytes(&mut key_material, first_dh.as_slice());
    append_bytes(&mut key_material, second_dh.as_slice());
    assert(key_material@ =~= first_dh@ + second_dh@);
    let derived = derive_bytes(None, key_material.as_slice(), PREKEY_HKDF_INFO, 32)?;
    let key = take_32(derived.as_slice(), 0);
    assert(derived@.subrange(0, 32) =~= derived@);
    Ok(key)
}

/// The two chains of a root key: from Alice to Bob, then from Bob to Alice.
pub fn derive_directional_chains(root_key: [u8; 32]) -> (chains: Result<
    ([u8; 32], [u8; 32]),
    CryptoError,
>)
    ensures
        chains matches Ok(chains) && chains.0@ == alice_chain(root_key@) && chains.1@ == bob_chain(
            root_key@,
        ),
{
    let output = derive_bytes(None, root_key.as_slice(), INITIAL_CHAIN_INFO, 64)?;
    Ok((take_32(output.as_slice(), 0), take_32(output.as_slice(), 32)))
}

/// One step of a chain: the next chain key and the message key.
pub fn advance_chain(chain_key: [u8; 32]) -> (step: Result<([u8; 32], [u8; 32]), CryptoError>)
    ensures
        step matches Ok(step) && step.0@ == next_chain_key(chain_key@) && step.1@ == message_key(
            chain_key@,
        ),
{
    let output = derive_bytes(None, chain_key.as_slice(), CHAIN_STEP_INFO, 64)?;
    Ok((take_32(output.as_slice(), 0), take_32(output.as_slice(), 32)))
}

/// One step of the Diffie-Hellman ratchet: the next root key and the two chains.
pub fn derive_dh_ratchet_state(root_key: [u8; 32], dh_output: [u8; 32]) -> (step: Result<
    ([u8; 32], [u8; 32], [u8; 32]),
    CryptoError,
>)
    ensures
        step matches Ok(step) && step.0@ == dh_ratchet_output(root_key@, dh_output@).subrange(0, 32)
            && step.1@ == dh_ratchet_output(root_key@, dh_output@).subrange(32, 64) && step.2@
            == dh_ratchet_output(root_key@, dh_output@).subrange(64, 96),
{
    let output = derive_bytes(Some(&root_key), dh_output.as_slice(), DH_RATCHET_INFO, 96)?;
    Ok(
        (
            take_32(output.as_slice(), 0),
            take_32(output.as_slice(), 32),
            take_32(output.as_slice(), 64),
        ),
    )
}

pub fn nonce_for(number: u64) -> (nonce: [u8; 12])
    ensures
        nonce@ == nonce_bytes(number),
{
    let bytes = to_be_bytes(number);
    let nonce: [u8; 12] = [
        0,
        0,
        0,
        0,
        bytes[0],
        bytes[1],
        bytes[2],
        bytes[3],
        bytes[4],
        bytes[5],
        bytes[6],
        bytes[7],
    ];
    assert(nonce@ =~= nonce_bytes(number));
    nonce
}

pub fn ratchet_aad(number: u64, ratchet_public_key: PublicKeyBytes) -> (aad: Vec<u8>)
    ensures
        aad@ == aad_bytes(number, ratchet_public_key@),
{
    let mut aad: Vec<u8> = Vec::new();
    append_bytes(&mut aad, LOCAL_AAD.as_bytes());
    append_bytes(&mut aad, to_be_bytes(number).as_slice());
    append_bytes(&mut aad, ratchet_public_key.as_slice());
    assert(aad@ =~= aad_bytes(number, ratchet_public_key@));
    aad
}

} // verus!
