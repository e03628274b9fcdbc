//! The cryptographic primitives, the random source and the clock, each behind one
//! function whose contract says what is relied on.

use chacha20poly1305::aead::{Aead, Payload};
use chacha20poly1305::{ChaCha20Poly1305, KeyInit, Nonce};
use ed25519_dalek::{Signature, Signer, SigningKey, Verifier, VerifyingKey};
use getrandom::rand_core::UnwrapErr;
use getrandom::SysRng;
use hkdf::Hkdf;
use sha2::{Digest, Sha256};
use std::string::FromUtf8Error;
use std::time::{SystemTime, UNIX_EPOCH};
use vstd::prelude::*;
use vstd::utf8::{decode_utf8, valid_utf8};
use x25519_dalek::{PublicKey, StaticSecret};

verus! {

/// The error of the hkdf crate: the requested output is too long.
#[verifier::external_type_specification]
#[verifier::external_body]
pub struct ExInvalidLength(hkdf::InvalidLength);

/// The error of the aead traits: sealing or opening failed.
#[verifier::external_type_specification]
#[verifier::external_body]
pub struct ExAeadError(chacha20poly1305::aead::Error);

/// The error of the ed25519-dalek crate.
#[verifier::external_type_specification]
#[verifier::external_body]
pub struct ExSignatureError(ed25519_dalek::SignatureError);

/// The error of the getrandom crate: the system's random source failed.
#[verifier::external_type_specification]
#[verifier::external_body]
pub struct ExRandomError(getrandom::Error);

/// The error of `String::from_utf8`.
#[verifier::external_type_specification]
#[verifier::external_body]
pub struct ExFromUtf8Error(FromUtf8Error);

/// The X25519 public key that belongs to a private key.
pub uninterp spec fn x25519_public(private: Seq<u8>) -> Seq<u8>;

/// The X25519 shared secret of a private key and a peer's public key.
pub uninterp spec fn x25519_shared(private: Seq<u8>, public: Seq<u8>) -> Seq<u8>;

/// The HKDF-SHA256 output of `len` bytes for a salt, input key material and info.
pub uninterp spec fn hkdf_sha256(
    salt: Option<Seq<u8>>,
    ikm: Seq<u8>,
    info: Seq<u8>,
    len: nat,
) -> Seq<u8>;

/// The ChaCha20-Poly1305 ciphertext, tag last, of a plaintext.
pub uninterp spec fn aead_seal(
    key: Seq<u8>,
    nonce: Seq<u8>,
    aad: Seq<u8>,
    plaintext: Seq<u8>,
) -> Seq<u8>;

/// The plaintext of an authentic ChaCha20-Poly1305 ciphertext, `None` of another.
pub uninterp spec fn aead_open(
    key: Seq<u8>,
    nonce: Seq<u8>,
    aad: Seq<u8>,
    ciphertext: Seq<u8>,
) -> Option<Seq<u8>>;

/// The Ed25519 public key that belongs to a secret key.
pub uninterp spec fn ed25519_public(secret: Seq<u8>) -> Seq<u8>;

/// The Ed25519 signature of a message under a secret key.
pub uninterp spec fn ed25519_signature(secret: Seq<u8>, message: Seq<u8>) -> Seq<u8>;

/// Whether a signature of a message holds under an Ed25519 public key.
pub uninterp spec fn ed25519_accepts(
    public: Seq<u8>,
    message: Seq<u8>,
    signature: Seq<u8>,
) -> bool;

/// The SHA-256 digest of a byte string.
pub uninterp spec fn sha256(data: Seq<u8>) -> Seq<u8>;

/// The lengths of plaintext on which the ChaCha20-Poly1305 implementation neither
/// answers nor fails: its last, partial block would pass the end of the block counter.
pub open spec fn aead_overruns(len: int) -> bool {
    64 * 0xffff_fffe < len < 64 * 0xffff_ffff
}

/// `x25519_dalek::PublicKey::from(&StaticSecret)`: a function of the private key.
#[verifier::external_body]
pub(crate) fn x25519_public_key(private: &[u8; 32]) -> (public: [u8; 32])
    ensures
        public@ == x25519_public(private@),
{
    PublicKey::from(&StaticSecret::from(*private)).to_bytes()
}

/// `x25519_dalek::StaticSecret::diffie_hellman`: a function of the two keys. Where the
/// peer's key is the public key of some private key, that private key and this side's
/// public key give the same secret.
#[verifier::external_body]
pub(crate) fn x25519_diffie_hellman(private: &[u8; 32], public: &[u8; 32]) -> (shared: [u8; 32])
    ensures
        shared@ == x25519_shared(private@, public@),
        forall|peer: Seq<u8>| #[trigger]
            x25519_public(peer) == public@ && peer.len() == 32 ==> shared@ == x25519_shared(
                peer,
                x25519_public(private@),
            ),
{
    StaticSecret::from(*private).diffie_hellman(&PublicKey::from(*public)).to_bytes()
}

/// `x25519_dalek::StaticSecret::random`: fresh bytes of the system's random source.
/// Nothing is claimed of them. It does not return where that source fails.
#[verifier::external_body]
pub(crate) fn x25519_random_private() -> (private: [u8; 32])
{
    StaticSecret::random().to_bytes()
}

/// `hkdf::Hkdf::<Sha256>::new` and `expand`: extract-and-expand with SHA-256, which
/// refuses outputs of more than 255 digests and gives exactly `len` bytes otherwise.
#[verifier::external_body]
pub(crate) fn hkdf_sha256_derive(
    salt: Option<&[u8; 32]>,
    ikm: &[u8],
    info: &[u8],
    len: usize,
) -> (output: Result<Vec<u8>, hkdf::InvalidLength>)
    ensures
        output is Err <==> len > 255 * 32,
        output matches Ok(bytes) ==> bytes@.len() == len && bytes@ == hkdf_sha256(
            match salt {
                Some(salt) => Some(salt@),
                None => None,
            },
            ikm@,
            info@,
            len as nat,
        ),
{
    let mut okm = vec![0u8; len];
    Hkdf::<Sha256>::new(salt.map(|salt| salt.as_slice()), ikm).expand(info, &mut okm)?;
    Ok(okm)
}

/// `chacha20poly1305::ChaCha20Poly1305::encrypt`: sixteen bytes longer than the
/// plaintext, refused only of plaintexts of at least 2^32 - 1 blocks, and opened again
/// under the same key, nonce and associated data.
#[verifier::external_body]
pub(crate) fn chacha20poly1305_seal(
    key: &[u8; 32],
    nonce: &[u8; 12],
    aad: &[u8],
    plaintext: &[u8],
) -> (sealed: Result<Vec<u8>, chacha20poly1305::aead::Error>)
    requires
        !aead_overruns(plaintext@.len() as int),
    ensures
        sealed is Err <==> plaintext@.len() >= 64 * 0xffff_ffff,
        sealed matches Ok(ciphertext) ==> {
            &&& ciphertext@ == aead_seal(key@, nonce@, aad@, plaintext@)
            &&& ciphertext@.len() == plaintext@.len() + 16
            &&& aead_open(key@, nonce@, aad@, ciphertext@) == Some(plaintext@)
        },
{
    ChaCha20Poly1305::new(key.into()).encrypt(
        Nonce::from_slice(nonce),
        Payload { msg: plaintext, aad },
    )
}

/// `chacha20poly1305::ChaCha20Poly1305::decrypt`: a function of the key, nonce,
/// associated data and ciphertext, sixteen bytes shorter than the ciphertext.
#[verifier::external_body]
pub(crate) fn chacha20poly1305_open(
    key: &[u8; 32],
    nonce: &[u8; 12],
    aad: &[u8],
    ciphertext: &[u8],
) -> (opened: Result<Vec<u8>, chacha20poly1305::aead::Error>)
    requires
        !aead_overruns(ciphertext@.len() - 16),
    ensures
        opened is Err <==> aead_open(key@, nonce@, aad@, ciphertext@) is None,
        opened matches Ok(plaintext) ==> {
            &&& aead_open(key@, nonce@, aad@, ciphertext@) == Some(plaintext@)
            &&& plaintext@.len() + 16 == ciphertext@.len()
        },
{
    ChaCha20Poly1305::new(key.into()).decrypt(
        Nonce::from_slice(nonce),
        Payload { msg: ciphertext, aad },
    )
}

/// `ed25519_dalek::SigningKey::from_bytes` and `verifying_key`: a function of the
/// secret key.
#[verifier::external_body]
pub(crate) fn ed25519_public_key(secret: &[u8; 32]) -> (public: [u8; 32])
    ensures
        public@ == ed25519_public(secret@),
{
    SigningKey::from_bytes(secret).verifying_key().to_bytes()
}

/// `ed25519_dalek::SigningKey::sign`: the deterministic signature of sixty-four bytes,
/// which holds under the key's own public key.
#[verifier::external_body]
pub(crate) fn ed25519_sign(secret: &[u8; 32], message: &[u8]) -> (signature: Vec<u8>)
    ensures
        signature@ == ed25519_signature(secret@, message@),
        signature@.len() == 64,
        ed25519_accepts(ed25519_public(secret@), message@, signature@),
{
    SigningKey::from_bytes(secret).sign(message).to_bytes().to_vec()
}

/// `ed25519_dalek::VerifyingKey::verify` of a public key and a signature given as
/// bytes: a function of the three byte strings, and an error wherever the key or the
/// signature is malformed or the signature does not hold.
#[verifier::external_body]
pub(crate) fn ed25519_verify(public: &[u8; 32], message: &[u8], signature: &[u8]) -> (verdict:
    Result<(), ed25519_dalek::SignatureError>)
    ensures
        verdict is Ok <==> ed25519_accepts(public@, message@, signature@),
{
    VerifyingKey::from_bytes(public)?.verify(message, &Signature::try_from(signature)?)
}

/// `ed25519_dalek::SigningKey::generate` from the system's random source. Nothing is
/// claimed of the bytes. It does not return where that source fails.
#[verifier::external_body]
pub(crate) fn ed25519_random_secret() -> (secret: [u8; 32])
{
    SigningKey::generate(&mut UnwrapErr(SysRng)).to_bytes()
}

/// `sha2::Sha256::digest`: the thirty-two byte digest of the whole input.
#[verifier::external_body]
pub(crate) fn sha256_digest(data: &[u8]) -> (digest: [u8; 32])
    ensures
        digest@ == sha256(data@),
{
    Sha256::digest(data).into()
}

/// `getrandom::fill`: `len` bytes of the system's random source, or its error. Nothing
/// is claimed of the bytes.
#[verifier::external_body]
pub(crate) fn random_bytes(len: usize) -> (random: Result<Vec<u8>, getrandom::Error>)
    ensures
        random matches Ok(bytes) ==> bytes@.len() == len,
{
    let mut bytes = vec![0u8; len];
    getrandom::fill(&mut bytes)?;
    Ok(bytes)
}

/// `String::from_utf8` of the standard library: the decoded text of well-formed UTF-8,
/// an error of anything else.
pub assume_specification[ String::from_utf8 ](bytes: Vec<u8>) -> (text: Result<
    String,
    FromUtf8Error,
>)
    ensures
        text is Ok <==> valid_utf8(bytes@),
        text matches Ok(text) ==> text@ == decode_utf8(bytes@),
;

/// `SystemTime::now` of the standard library, as whole seconds since the Unix epoch,
/// zero before it. Nothing is claimed of the clock.
#[verifier::external_body]
pub(crate) fn clock_unix_secs() -> (now: u64)
{
    SystemTime::now().duration_since(UNIX_EPOCH).unwrap_or_default().as_secs()
}

} // verus!
