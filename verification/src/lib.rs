//! CipherMesh: the end-to-end encrypted messaging core of a peer-to-peer messenger.

pub mod account_laws;
pub mod address;
pub mod address_laws;
pub mod args;
pub mod binding_laws;
pub mod bytes;
pub mod chat;
pub mod chat_laws;
pub mod codec;
pub mod conversation;
pub mod crdt;
pub mod crdt_laws;
pub mod delivery;
pub mod demo;
pub mod device;
pub mod device_scenes;
pub mod error;
pub mod events;
pub mod fanout;
pub mod frames;
pub mod handshake;
pub mod history;
pub mod identity;
pub mod invite;
pub mod mailbox_laws;
pub mod mailbox_node;
pub mod mailbox_storage;
pub mod menu;
pub mod pairing;
pub mod pairing_laws;
pub mod party;
pub mod party_laws;
pub mod primitives;
pub mod profile;
pub mod ratchet;
pub mod records;
pub mod relay;
pub mod rendezvous;
pub mod scenes;
pub mod service;
pub mod session;
pub mod session_laws;
pub mod sorted;
pub mod states;
pub mod storage;
pub mod storage_laws;
pub mod sync;
pub mod table_laws;
pub mod text;
pub mod text_laws;
pub mod wire;

pub use device::{
    active_device_certificates, is_device_currently_authorized, verify_authorized_sibling_devices,
    verify_device_certificate, verify_device_revocation, AccountId, AccountIdentity,
    AccountIdentityState, DeviceCertificate, DeviceDeliveryEnvelope, DeviceId, DeviceIdentity,
    DeviceIdentityState, DeviceRevocation, DeviceSession, DeviceSessionState,
};
pub use error::CryptoError;
pub use identity::{IdentityPublicKeyBytes, PreKeyBundle, SignatureBytes, SignedKeyExchange};
pub use party::{
    send_over_simulated_transport, Alice, AliceState, Bob, BobState, InitialMessage,
    OneTimePreKeyState, SimulatedDirectory,
};
pub use ratchet::PublicKeyBytes;
pub use session::{RatchetMessage, RatchetRoleState, RatchetSessionState};
