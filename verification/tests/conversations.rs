use ciphermesh::identity::{verify_signed_key_exchange, verify_signed_prekey, IdentityKeyPair};
use ciphermesh::ratchet::{advance_chain, derive_directional_chains, X25519KeyPair};
use ciphermesh::{
    active_device_certificates, is_device_currently_authorized, send_over_simulated_transport,
    verify_authorized_sibling_devices, verify_device_certificate, verify_device_revocation,
    AccountIdentity, Alice, Bob, CryptoError, DeviceCertificate, DeviceIdentity, InitialMessage,
    PreKeyBundle, RatchetMessage, SimulatedDirectory,
};


#[test]
fn alice_and_bob_derive_equivalent_aead_keys() {
    let alice = Alice::local();
    let bob = Bob::local();
    let alice_exchange = alice.signed_key_exchange();
    let bob_exchange = bob.signed_key_exchange();

    verify_signed_key_exchange(&alice_exchange).expect("alice signature verifies");
    verify_signed_key_exchange(&bob_exchange).expect("bob signature verifies");

    let alice_key = X25519KeyPair::from_private_bytes(alice.export_state().x25519_private_key)
        .derive_aead_key(bob_exchange.x25519_public_key)
        .expect("alice derives key");
    let bob_key = X25519KeyPair::from_private_bytes(bob.export_state().x25519_private_key)
        .derive_aead_key(alice_exchange.x25519_public_key)
        .expect("bob derives key");

    assert_eq!(alice_key, bob_key);
}

#[test]
fn valid_signatures_allow_encrypted_round_trip() {
    let mut alice = Alice::local();
    let mut bob = Bob::local();
    let message = "hello bob, this is alice";
    let alice_exchange = alice.signed_key_exchange();
    let bob_exchange = bob.signed_key_exchange();

    alice
        .derive_session_key(&bob_exchange)
        .expect("alice derives session key");
    bob.derive_session_key(&alice_exchange)
        .expect("bob derives session key");

    let encrypted = alice.encrypt_for_bob(message).expect("encrypt");
    assert_ne!(encrypted.ciphertext, message.as_bytes());

    let received_ciphertext = send_over_simulated_transport(encrypted);
    let plaintext = bob
        .decrypt_from_alice(&received_ciphertext)
        .expect("decrypt");

    assert_eq!(plaintext, message);
}

#[test]
fn bob_rejects_modified_ciphertext() {
    let mut alice = Alice::local();
    let mut bob = Bob::local();
    let alice_exchange = alice.signed_key_exchange();
    let bob_exchange = bob.signed_key_exchange();

    alice
        .derive_session_key(&bob_exchange)
        .expect("alice derives session key");
    bob.derive_session_key(&alice_exchange)
        .expect("bob derives session key");

    let mut encrypted = alice.encrypt_for_bob("tamper with me").expect("encrypt");
    encrypted.ciphertext[0] ^= 0x01;

    let received_ciphertext = send_over_simulated_transport(encrypted);
    let result = bob.decrypt_from_alice(&received_ciphertext);

    assert_eq!(result, Err(CryptoError::Decrypt));
}

#[test]
fn modified_x25519_public_key_fails_signature_verification() {
    let mallory = Alice::local();
    let mut bob = Bob::local();
    let mut substituted_exchange = mallory.signed_key_exchange();
    substituted_exchange.x25519_public_key[0] ^= 0x01;

    let result = bob.derive_session_key(&substituted_exchange);

    assert_eq!(result, Err(CryptoError::SignatureVerification));
}

#[test]
fn bob_can_publish_valid_prekey_bundle() {
    let bob = Bob::local();
    let bundle = bob.prekey_bundle().expect("bob publishes prekey bundle");

    assert_eq!(bundle.identity_public_key, IdentityKeyPair::from_secret_bytes(bob.export_state().identity_secret_key).public_key());
    assert_eq!(
        bundle.signed_prekey_public_key,
        X25519KeyPair::from_private_bytes(bob.export_state().signed_prekey_private_key).public_key()
    );
    assert_eq!(bundle.one_time_prekey_id, 1);
    verify_signed_prekey(&bundle).expect("signed prekey verifies");
}

#[test]
fn bob_can_be_offline_while_alice_encrypts_initial_message() {
    let mut bob = Bob::local();
    let mut directory = SimulatedDirectory::new();
    directory
        .publish_bob_bundle(&bob)
        .expect("directory stores bundle");

    let mut alice = Alice::local();
    let bundle = directory
        .take_bob_prekey_bundle()
        .expect("alice retrieves public bundle");
    verify_signed_prekey(&bundle).expect("alice verifies signed prekey");
    let initial_message = alice
        .encrypt_initial_message(&bundle, "hello offline bob")
        .expect("alice encrypts while bob is offline");

    let plaintext = bob
        .decrypt_initial_message(&initial_message)
        .expect("bob decrypts after returning");

    assert_eq!(plaintext, "hello offline bob");
}

#[test]
fn alice_and_bob_derive_compatible_prekey_session_keys() {
    let mut alice = Alice::local();
    let mut bob = Bob::local();
    let bundle = bob.prekey_bundle().expect("bob publishes prekey bundle");

    let initial_message = alice
        .encrypt_initial_message(&bundle, "prekey session")
        .expect("alice encrypts initial message");
    let plaintext = bob
        .decrypt_initial_message(&initial_message)
        .expect("bob derives compatible key and decrypts");

    assert_eq!(plaintext, "prekey session");
}

#[test]
fn modified_signed_prekey_fails_verification() {
    let mut alice = Alice::local();
    let bob = Bob::local();
    let mut bundle = bob.prekey_bundle().expect("bob publishes prekey bundle");
    bundle.signed_prekey_public_key[0] ^= 0x01;

    let result = alice.encrypt_initial_message(&bundle, "should not encrypt");

    assert_eq!(result, Err(CryptoError::SignatureVerification));
}

#[test]
fn consumed_one_time_prekey_is_not_reused_as_fresh_prekey() {
    let mut bob = Bob::local();
    let mut directory = SimulatedDirectory::new();
    directory
        .publish_bob_bundle(&bob)
        .expect("directory stores bundle");

    let mut alice = Alice::local();
    let bundle = directory
        .take_bob_prekey_bundle()
        .expect("first retrieval consumes directory prekey");
    let initial_message = alice
        .encrypt_initial_message(&bundle, "use once")
        .expect("alice encrypts");

    assert_eq!(
        directory.take_bob_prekey_bundle(),
        Err(CryptoError::PreKeyUnavailable)
    );
    bob.decrypt_initial_message(&initial_message)
        .expect("bob consumes private one-time prekey");
    assert_eq!(
        bob.decrypt_initial_message(&initial_message),
        Err(CryptoError::PreKeyUnavailable)
    );
    assert_eq!(bob.prekey_bundle(), Err(CryptoError::PreKeyUnavailable));
}

#[test]
fn consecutive_messages_use_different_encryption_keys() {
    let root_key = [7u8; 32];
    let (send_chain, _) = derive_directional_chains(root_key).expect("chains derive");
    let (_, first_message_key) = advance_chain(send_chain).expect("first key");
    let (second_chain, _) = advance_chain(send_chain).expect("first advance");
    let (_, second_message_key) = advance_chain(second_chain).expect("second key");

    assert_ne!(first_message_key, second_message_key);
}

#[test]
fn alice_and_bob_derive_compatible_ratchet_message_keys() {
    let root_key = [9u8; 32];
    let (alice_to_bob, bob_to_alice) =
        derive_directional_chains(root_key).expect("chains derive");
    let (_, alice_message_key) = advance_chain(alice_to_bob).expect("alice send key");
    let (_, bob_message_key) = advance_chain(alice_to_bob).expect("bob receive key");

    assert_eq!(alice_message_key, bob_message_key);
    assert_ne!(alice_message_key, bob_to_alice);
}

#[test]
fn multiple_ratcheted_messages_encrypt_and_decrypt_successfully() {
    let mut alice = Alice::local();
    let mut bob = Bob::local();
    let alice_exchange = alice.signed_key_exchange();
    let bob_exchange = bob.signed_key_exchange();
    alice
        .derive_session_key(&bob_exchange)
        .expect("alice derives session key");
    bob.derive_session_key(&alice_exchange)
        .expect("bob derives session key");

    let first = send_over_simulated_transport(alice.encrypt_for_bob("one").expect("one"));
    let second = send_over_simulated_transport(alice.encrypt_for_bob("two").expect("two"));
    let third = send_over_simulated_transport(alice.encrypt_for_bob("three").expect("three"));

    assert_eq!(bob.decrypt_from_alice(&first).expect("decrypt one"), "one");
    assert_eq!(bob.decrypt_from_alice(&second).expect("decrypt two"), "two");
    assert_eq!(
        bob.decrypt_from_alice(&third).expect("decrypt three"),
        "three"
    );
}

#[test]
fn bob_can_send_ratcheted_messages_back_to_alice() {
    let mut alice = Alice::local();
    let mut bob = Bob::local();
    let alice_exchange = alice.signed_key_exchange();
    let bob_exchange = bob.signed_key_exchange();
    alice
        .derive_session_key(&bob_exchange)
        .expect("alice derives session key");
    bob.derive_session_key(&alice_exchange)
        .expect("bob derives session key");

    let encrypted = bob
        .encrypt_for_alice("hello alice")
        .expect("bob encrypts to alice");

    assert_eq!(
        alice.decrypt_from_bob(&encrypted).expect("alice decrypts"),
        "hello alice"
    );
}

#[test]
fn account_authorizes_two_distinct_devices() {
    let account = AccountIdentity::generate();
    let laptop = DeviceIdentity::generate(account.account_id());
    let phone = DeviceIdentity::generate(account.account_id());
    let laptop_certificate = account.authorize_device(&laptop);
    let phone_certificate = account.authorize_device(&phone);

    verify_device_certificate(account.public_key(), &laptop_certificate)
        .expect("laptop verifies");
    verify_device_certificate(account.public_key(), &phone_certificate)
        .expect("phone verifies");

    assert_eq!(laptop.account_id(), account.account_id());
    assert_eq!(phone.account_id(), account.account_id());
    assert_ne!(laptop.device_id(), phone.device_id());
    assert_ne!(laptop.ed25519_public_key(), phone.ed25519_public_key());
    assert_ne!(laptop.x25519_public_key(), phone.x25519_public_key());
}

#[test]
fn modified_device_certificate_fails_verification() {
    let account = AccountIdentity::generate();
    let laptop = DeviceIdentity::generate(account.account_id());
    let mut certificate = account.authorize_device(&laptop);

    certificate.device_x25519_public_key[0] ^= 0x01;

    assert_eq!(
        verify_device_certificate(account.public_key(), &certificate),
        Err(CryptoError::SignatureVerification)
    );
}

#[test]
fn certificate_signed_by_other_account_does_not_authorize_alice_device() {
    let alice_account = AccountIdentity::generate();
    let other_account = AccountIdentity::generate();
    let laptop = DeviceIdentity::generate(alice_account.account_id());
    let certificate = other_account.authorize_device(&laptop);

    assert_eq!(
        verify_device_certificate(alice_account.public_key(), &certificate),
        Err(CryptoError::SignatureVerification)
    );
}

#[test]
fn account_identity_survives_export_and_restore() {
    let account = AccountIdentity::generate();
    let state = account.export_state();
    let restored = AccountIdentity::from_state(state);

    assert_eq!(account.account_id(), restored.account_id());
    assert_eq!(account.public_key(), restored.public_key());
}

#[test]
fn authorized_sibling_devices_verify_for_same_account() {
    let account = AccountIdentity::generate();
    let laptop = DeviceIdentity::generate(account.account_id());
    let phone = DeviceIdentity::generate(account.account_id());
    let laptop_cert = account.authorize_device(&laptop);
    let phone_cert = account.authorize_device(&phone);

    verify_authorized_sibling_devices(account.public_key(), &laptop_cert, &phone_cert)
        .expect("same account siblings verify");
}

#[test]
fn sibling_device_check_rejects_other_account_certificate() {
    let account = AccountIdentity::generate();
    let other = AccountIdentity::generate();
    let laptop = DeviceIdentity::generate(account.account_id());
    let phone = DeviceIdentity::generate(other.account_id());
    let laptop_cert = account.authorize_device(&laptop);
    let phone_cert = other.authorize_device(&phone);

    assert_eq!(
        verify_authorized_sibling_devices(account.public_key(), &laptop_cert, &phone_cert),
        Err(CryptoError::SignatureVerification)
    );
}

#[test]
fn revoked_device_certificate_is_not_currently_authorized() {
    let account = AccountIdentity::generate();
    let phone = DeviceIdentity::generate(account.account_id());
    let certificate = account.authorize_device(&phone);
    let revocation = account.revoke_device(phone.device_id(), 1);

    verify_device_certificate(account.public_key(), &certificate)
        .expect("old certificate was valid");
    verify_device_revocation(account.public_key(), &revocation).expect("revocation verifies");
    assert_eq!(
        is_device_currently_authorized(account.public_key(), &certificate, &[revocation]),
        Ok(false)
    );
}

#[test]
fn modified_device_revocation_fails_verification() {
    let account = AccountIdentity::generate();
    let phone = DeviceIdentity::generate(account.account_id());
    let mut revocation = account.revoke_device(phone.device_id(), 1);

    revocation.device_id.push_str("-modified");

    assert_eq!(
        verify_device_revocation(account.public_key(), &revocation),
        Err(CryptoError::SignatureVerification)
    );
}

#[test]
fn active_device_certificates_excludes_revoked_phone() {
    let (account, laptop, phone, _, laptop_cert, phone_cert) = fanout_identities();
    let revocation = account.revoke_device(phone.device_id(), 1);

    let active = active_device_certificates(
        account.public_key(),
        &[laptop_cert, phone_cert],
        &[revocation],
    )
    .expect("active list");

    assert_eq!(active.len(), 1);
    assert_eq!(active[0].device_id, laptop.device_id());
    assert_ne!(active[0].device_id, phone.device_id());
}

#[test]
fn fanout_encrypts_separately_per_authorized_device() {
    let (account, laptop, phone, bob, laptop_cert, phone_cert) = fanout_identities();
    let mut laptop_sender = bob
        .create_outbound_session(account.public_key(), &laptop_cert)
        .expect("laptop sender session");
    let mut phone_sender = bob
        .create_outbound_session(account.public_key(), &phone_cert)
        .expect("phone sender session");
    let mut laptop_receiver = laptop
        .create_inbound_session(bob.device_id(), bob.x25519_public_key())
        .expect("laptop receiver session");
    let mut phone_receiver = phone
        .create_inbound_session(bob.device_id(), bob.x25519_public_key())
        .expect("phone receiver session");

    let laptop_envelope = laptop_sender
        .encrypt("logical-1", "hello alice")
        .expect("laptop encrypt");
    let phone_envelope = phone_sender
        .encrypt("logical-1", "hello alice")
        .expect("phone encrypt");

    assert_eq!(
        laptop_envelope.logical_message_id,
        phone_envelope.logical_message_id
    );
    assert_ne!(
        laptop_envelope.message.ciphertext,
        phone_envelope.message.ciphertext
    );
    assert_eq!(
        laptop_receiver
            .decrypt(&laptop_envelope)
            .expect("laptop decrypt"),
        "hello alice"
    );
    assert_eq!(
        phone_receiver
            .decrypt(&phone_envelope)
            .expect("phone decrypt"),
        "hello alice"
    );
}

#[test]
fn incorrect_device_cannot_decrypt_another_device_envelope() {
    let (account, laptop, phone, bob, laptop_cert, _) = fanout_identities();
    let mut laptop_sender = bob
        .create_outbound_session(account.public_key(), &laptop_cert)
        .expect("laptop sender session");
    let mut phone_receiver = phone
        .create_inbound_session(bob.device_id(), bob.x25519_public_key())
        .expect("phone receiver session");
    let envelope = laptop_sender
        .encrypt("logical-1", "for laptop only")
        .expect("encrypt");

    assert_eq!(phone_receiver.decrypt(&envelope), Err(CryptoError::Decrypt));
    assert_eq!(envelope.recipient_device_id, laptop.device_id());
}

#[test]
fn per_device_session_counters_advance_independently() {
    let (account, _, _, bob, laptop_cert, phone_cert) = fanout_identities();
    let mut laptop_sender = bob
        .create_outbound_session(account.public_key(), &laptop_cert)
        .expect("laptop sender session");
    let mut phone_sender = bob
        .create_outbound_session(account.public_key(), &phone_cert)
        .expect("phone sender session");

    laptop_sender
        .encrypt("logical-1", "first laptop copy")
        .expect("first laptop encrypt");
    laptop_sender
        .encrypt("logical-2", "second laptop copy")
        .expect("second laptop encrypt");
    phone_sender
        .encrypt("logical-1", "first phone copy")
        .expect("phone encrypt");

    assert_eq!(laptop_sender.session_state().send_count, 2);
    assert_eq!(phone_sender.session_state().send_count, 1);
}

fn fanout_identities() -> (
    AccountIdentity,
    DeviceIdentity,
    DeviceIdentity,
    DeviceIdentity,
    DeviceCertificate,
    DeviceCertificate,
) {
    let account = AccountIdentity::generate();
    let laptop = DeviceIdentity::generate(account.account_id());
    let phone = DeviceIdentity::generate(account.account_id());
    let bob = DeviceIdentity::generate("bob-account");
    let laptop_cert = account.authorize_device(&laptop);
    let phone_cert = account.authorize_device(&phone);

    (account, laptop, phone, bob, laptop_cert, phone_cert)
}

#[test]
fn consumed_message_keys_are_not_reused() {
    let mut alice = Alice::local();
    let mut bob = Bob::local();
    let alice_exchange = alice.signed_key_exchange();
    let bob_exchange = bob.signed_key_exchange();
    alice
        .derive_session_key(&bob_exchange)
        .expect("alice derives session key");
    bob.derive_session_key(&alice_exchange)
        .expect("bob derives session key");

    let encrypted = alice.encrypt_for_bob("use once").expect("encrypt");
    assert_eq!(
        bob.decrypt_from_alice(&encrypted).expect("first decrypt"),
        "use once"
    );

    assert_eq!(bob.decrypt_from_alice(&encrypted), Err(CryptoError::Replay));
}

#[test]
fn replayed_message_is_rejected() {
    let mut alice = Alice::local();
    let mut bob = Bob::local();
    let alice_exchange = alice.signed_key_exchange();
    let bob_exchange = bob.signed_key_exchange();
    alice
        .derive_session_key(&bob_exchange)
        .expect("alice derives session key");
    bob.derive_session_key(&alice_exchange)
        .expect("bob derives session key");

    let encrypted = alice.encrypt_for_bob("no replay").expect("encrypt");
    bob.decrypt_from_alice(&encrypted).expect("first decrypt");
    let replay = send_over_simulated_transport(encrypted);

    assert_eq!(bob.decrypt_from_alice(&replay), Err(CryptoError::Replay));
}

#[test]
fn exported_state_restores_ratchet_without_new_handshake() {
    let mut alice = Alice::local();
    let mut bob = Bob::local();
    let alice_exchange = alice.signed_key_exchange();
    let bob_exchange = bob.signed_key_exchange();
    alice
        .derive_session_key(&bob_exchange)
        .expect("alice derives session key");
    bob.derive_session_key(&alice_exchange)
        .expect("bob derives session key");

    let before_restart = alice
        .encrypt_for_bob("before restart")
        .expect("encrypt before restart");
    assert_eq!(
        bob.decrypt_from_alice(&before_restart)
            .expect("decrypt before restart"),
        "before restart"
    );

    let mut restored_alice = Alice::from_state(alice.export_state());
    let mut restored_bob = Bob::from_state(bob.export_state());
    let after_restart = restored_alice
        .encrypt_for_bob("after restart")
        .expect("encrypt after restart");

    assert_eq!(
        restored_bob
            .decrypt_from_alice(&after_restart)
            .expect("decrypt after restart"),
        "after restart"
    );
}

#[test]
fn limited_out_of_order_delivery_decrypts_correctly() {
    let mut alice = Alice::local();
    let mut bob = Bob::local();
    let alice_exchange = alice.signed_key_exchange();
    let bob_exchange = bob.signed_key_exchange();
    alice
        .derive_session_key(&bob_exchange)
        .expect("alice derives session key");
    bob.derive_session_key(&alice_exchange)
        .expect("bob derives session key");

    let first = alice.encrypt_for_bob("first").expect("first");
    let second = alice.encrypt_for_bob("second").expect("second");
    let third = alice.encrypt_for_bob("third").expect("third");

    assert_eq!(bob.decrypt_from_alice(&third).expect("third"), "third");
    assert_eq!(bob.decrypt_from_alice(&first).expect("first"), "first");
    assert_eq!(bob.decrypt_from_alice(&second).expect("second"), "second");
}

#[test]
fn dh_ratchet_step_changes_state_and_communication_still_succeeds() {
    let mut alice = Alice::local();
    let mut bob = Bob::local();
    let alice_exchange = alice.signed_key_exchange();
    let bob_exchange = bob.signed_key_exchange();
    alice
        .derive_session_key(&bob_exchange)
        .expect("alice derives session key");
    bob.derive_session_key(&alice_exchange)
        .expect("bob derives session key");

    let old_root = alice.session_state().expect("alice session").root_key;
    alice
        .rotate_sending_ratchet()
        .expect("alice rotates sending ratchet");
    let ratcheted = alice
        .encrypt_for_bob("after dh ratchet")
        .expect("encrypt after ratchet");

    assert_ne!(
        old_root,
        alice.session_state().expect("alice session").root_key
    );
    assert_eq!(
        bob.decrypt_from_alice(&ratcheted).expect("bob decrypts"),
        "after dh ratchet"
    );
    assert_eq!(
        alice.session_state().expect("alice session").root_key,
        bob.session_state().expect("bob session").root_key
    );
}


type BundleWire = ([u8; 32], [u8; 32], Vec<u8>, u64, [u8; 32]);
type InitialWire = ([u8; 32], u64, (u64, [u8; 32], Vec<u8>));

fn bundle_bytes_of(bundle: &PreKeyBundle) -> Vec<u8> {
    let wire: BundleWire = (
        bundle.identity_public_key,
        bundle.signed_prekey_public_key,
        bundle.signed_prekey_signature.clone(),
        bundle.one_time_prekey_id,
        bundle.one_time_prekey_public_key,
    );
    bincode::serialize(&wire).expect("serialize bundle")
}

fn bundle_of(bytes: &[u8]) -> PreKeyBundle {
    let wire: BundleWire = bincode::deserialize(bytes).expect("deserialize bundle");
    PreKeyBundle {
        identity_public_key: wire.0,
        signed_prekey_public_key: wire.1,
        signed_prekey_signature: wire.2,
        one_time_prekey_id: wire.3,
        one_time_prekey_public_key: wire.4,
    }
}

#[test]
fn prekey_bundle_and_initial_message_serialize_as_network_bytes() {
    let mut alice = Alice::local();
    let bob = Bob::local();
    let bundle = bob.prekey_bundle().expect("bob publishes prekey bundle");

    let bundle_bytes = bundle_bytes_of(&bundle);
    assert!(!bundle_bytes
        .windows("hello network".len())
        .any(|window| window == b"hello network"));
    let decoded_bundle = bundle_of(&bundle_bytes);
    assert_eq!(decoded_bundle, bundle);

    let initial_message = alice
        .encrypt_initial_message(&decoded_bundle, "hello network")
        .expect("encrypt initial message");
    let wire: InitialWire = (
        initial_message.alice_initial_public_key,
        initial_message.one_time_prekey_id,
        (
            initial_message.message.number,
            initial_message.message.ratchet_public_key,
            initial_message.message.ciphertext.clone(),
        ),
    );
    let message_bytes = bincode::serialize(&wire).expect("serialize message");
    assert!(!message_bytes
        .windows("hello network".len())
        .any(|window| window == b"hello network"));
    let read: InitialWire = bincode::deserialize(&message_bytes).expect("deserialize message");
    let decoded_message = InitialMessage {
        alice_initial_public_key: read.0,
        one_time_prekey_id: read.1,
        message: RatchetMessage {
            number: (read.2).0,
            ratchet_public_key: (read.2).1,
            ciphertext: (read.2).2,
        },
    };

    assert_eq!(decoded_message, initial_message);
}
