//! The two parties of a conversation: Alice, who opens it, and Bob, who can also be
//! written to while away through published prekeys.

use crate::bytes::utf8;
use crate::error::CryptoError;
use crate::identity::{
    verify_signed_key_exchange, verify_signed_prekey, BundleView, IdentityKeyPair, PreKeyBundle,
    SignedKeyExchange,
};
use crate::identity::{key_exchange_bytes, prekey_bytes};
use crate::primitives::{
    aead_overruns, ed25519_public, ed25519_signature, x25519_public, x25519_shared,
};
use crate::ratchet::{
    aead_key, chain_after, derive_prekey_aead_key, prekey_aead_key, secrets_agree, PublicKeyBytes,
    X25519KeyPair,
};
use crate::session::{
    is_same_session, is_sent, is_within_cipher, MessageView, RatchetMessage, RatchetRole, RatchetSession, RatchetSessionState,
    SessionView,
};
use crate::session_laws::law_counter_has_room;
use vstd::prelude::*;

verus! {

/// The first message to a party that may be away.
#[derive(Debug, Clone, PartialEq, Eq)]
pub struct InitialMessage {
    pub alice_initial_public_key: PublicKeyBytes,
    pub one_time_prekey_id: u64,
    pub message: RatchetMessage,
}

/// The contents of an `InitialMessage`.
pub struct InitialView {
    pub alice_initial_public_key: Seq<u8>,
    pub one_time_prekey_id: u64,
    pub message: MessageView,
}

impl View for InitialMessage {
    type V = InitialView;

    open spec fn view(&self) -> InitialView {
        InitialView {
            alice_initial_public_key: self.alice_initial_public_key@,
            one_time_prekey_id: self.one_time_prekey_id,
            message: self.message@,
        }
    }
}

#[derive(Debug, Clone, PartialEq, Eq)]
pub struct OneTimePreKeyState {
    pub id: u64,
    pub private_key: [u8; 32],
}

#[derive(Debug, Clone, PartialEq, Eq)]
pub struct AliceState {
    pub identity_secret_key: [u8; 32],
    pub x25519_private_key: [u8; 32],
    pub session: Option<RatchetSessionState>,
}

#[derive(Debug, Clone, PartialEq, Eq)]
pub struct BobState {
    pub identity_secret_key: [u8; 32],
    pub x25519_private_key: [u8; 32],
    pub signed_prekey_private_key: [u8; 32],
    pub one_time_prekey: Option<OneTimePreKeyState>,
    pub session: Option<RatchetSessionState>,
}

/// The contents of `Alice`.
#[verifier::ext_equal]
pub struct AliceView {
    pub identity_secret_key: Seq<u8>,
    pub x25519_private_key: Seq<u8>,
    pub session: Option<SessionView>,
}

/// The contents of `Bob`.
#[verifier::ext_equal]
pub struct BobView {
    pub identity_secret_key: Seq<u8>,
    pub x25519_private_key: Seq<u8>,
    pub signed_prekey_private_key: Seq<u8>,
    /// The number and the private key of the prekey that was not used yet.
    pub one_time_prekey: Option<(u64, Seq<u8>)>,
    pub session: Option<SessionView>,
}

/// The session that a stored session stands for, where there is one.
pub open spec fn stored_session(state: Option<RatchetSessionState>) -> Option<SessionView> {
    match state {
        Some(state) => Some(state.session()),
        None => None,
    }
}

impl AliceState {
    /// The party that the state stands for.
    pub open spec fn party(self) -> AliceView {
        AliceView {
            identity_secret_key: self.identity_secret_key@,
            x25519_private_key: self.x25519_private_key@,
            session: stored_session(self.session),
        }
    }
}

impl BobState {
    /// The party that the state stands for.
    pub open spec fn party(self) -> BobView {
        BobView {
            identity_secret_key: self.identity_secret_key@,
            x25519_private_key: self.x25519_private_key@,
            signed_prekey_private_key: self.signed_prekey_private_key@,
            one_time_prekey: match self.one_time_prekey {
                Some(prekey) => Some((prekey.id, prekey.private_key@)),
                None => None,
            },
            session: stored_session(self.session),
        }
    }
}

/// The exchange that an identity signs for an X25519 private key.
pub open spec fn is_exchange_of(
    exchange: SignedKeyExchange,
    identity_secret_key: Seq<u8>,
    x25519_private_key: Seq<u8>,
) -> bool {
    &&& exchange.identity_public_key@ == ed25519_public(identity_secret_key)
    &&& exchange.x25519_public_key@ == x25519_public(x25519_private_key)
    &&& exchange.signature@ == ed25519_signature(
        identity_secret_key,
        key_exchange_bytes(exchange.identity_public_key@, exchange.x25519_public_key@),
    )
    &&& exchange.is_signed()
}

/// Whether two states of Alice hold the same values.
pub open spec fn is_same_alice(left: AliceState, right: AliceState) -> bool {
    &&& left.identity_secret_key == right.identity_secret_key
    &&& left.x25519_private_key == right.x25519_private_key
    &&& is_same_stored(left.session, right.session)
}

/// Whether two states of Bob hold the same values.
pub open spec fn is_same_bob(left: BobState, right: BobState) -> bool {
    &&& left.identity_secret_key == right.identity_secret_key
    &&& left.x25519_private_key == right.x25519_private_key
    &&& left.signed_prekey_private_key == right.signed_prekey_private_key
    &&& left.one_time_prekey == right.one_time_prekey
    &&& is_same_stored(left.session, right.session)
}

/// Whether two stored sessions, where there are any, hold the same values.
pub open spec fn is_same_stored(
    left: Option<RatchetSessionState>,
    right: Option<RatchetSessionState>,
) -> bool {
    match (left, right) {
        (Some(left), Some(right)) => is_same_session(left, right),
        (None, None) => true,
        _ => false,
    }
}

/// Whether the lists of a stored session, where there is one, are in order.
pub open spec fn is_sorted_state(state: Option<RatchetSessionState>) -> bool {
    state matches Some(state) ==> state.is_sorted()
}

impl AliceView {
    /// Alice after a message arrived, and its text or why there is none.
    pub open spec fn reading(self, message: MessageView) -> (
        AliceView,
        Result<Seq<char>, CryptoError>,
    ) {
        match self.session {
            None => (self, Err(CryptoError::MissingSessionKey)),
            Some(session) => (
                AliceView { session: Some(session.receiving(message).0), ..self },
                session.receiving(message).1,
            ),
        }
    }

    /// Whether Alice says `text` with `message` next.
    pub open spec fn says(self, message: MessageView, text: Seq<char>) -> bool {
        self.session matches Some(session) && is_sent(session, message, text)
    }
}

impl BobView {
    /// Bob after a message arrived, and its text or why there is none.
    pub open spec fn reading(self, message: MessageView) -> (
        BobView,
        Result<Seq<char>, CryptoError>,
    ) {
        match self.session {
            None => (self, Err(CryptoError::MissingSessionKey)),
            Some(session) => (
                BobView { session: Some(session.receiving(message).0), ..self },
                session.receiving(message).1,
            ),
        }
    }

    /// Whether Bob says `text` with `message` next.
    pub open spec fn says(self, message: MessageView, text: Seq<char>) -> bool {
        self.session matches Some(session) && is_sent(session, message, text)
    }

    /// The session that an initial message opens, under the prekey `one_time_private_key`.
    pub open spec fn opened_by(
        self,
        alice_initial_public_key: Seq<u8>,
        one_time_private_key: Seq<u8>,
    ) -> SessionView {
        SessionView::start(
            prekey_aead_key(
                x25519_shared(self.signed_prekey_private_key, alice_initial_public_key),
                x25519_shared(one_time_private_key, alice_initial_public_key),
            ),
            RatchetRole::Bob,
            self.signed_prekey_private_key,
            alice_initial_public_key,
        )
    }

    /// Whether an initial message is for the prekey that was not used yet.
    pub open spec fn has_prekey_for(self, initial: InitialView) -> bool {
        self.one_time_prekey matches Some(prekey) && prekey.0 == initial.one_time_prekey_id
    }

    /// Bob after an initial message arrived, and its text or why there is none.
    pub open spec fn receiving_initial(self, initial: InitialView) -> (
        BobView,
        Result<Seq<char>, CryptoError>,
    ) {
        if self.has_prekey_for(initial) {
            let opened = self.opened_by(
                initial.alice_initial_public_key,
                (self.one_time_prekey->0).1,
            );
            let (session, text) = opened.receiving(initial.message);
            (BobView { one_time_prekey: None, session: Some(session), ..self }, text)
        } else {
            (self, Err(CryptoError::PreKeyUnavailable))
        }
    }
}

/// Whether `bundle` is what Bob publishes.
pub open spec fn is_bundle_of(bundle: BundleView, bob: BobView) -> bool {
    &&& bob.one_time_prekey matches Some(prekey)
    &&& bundle.identity_public_key == ed25519_public(bob.identity_secret_key)
    &&& bundle.signed_prekey_public_key == x25519_public(bob.signed_prekey_private_key)
    &&& bundle.signed_prekey_signature == ed25519_signature(
        bob.identity_secret_key,
        prekey_bytes(bundle.identity_public_key, bundle.signed_prekey_public_key),
    )
    &&& bundle.one_time_prekey_id == prekey.0
    &&& bundle.one_time_prekey_public_key == x25519_public(prekey.1)
    &&& bundle.is_signed()
}

/// The session that Alice opens with a bundle and a fresh private key.
pub open spec fn opened_with(bundle: BundleView, fresh: Seq<u8>) -> SessionView {
    SessionView::start(
        prekey_aead_key(
            x25519_shared(fresh, bundle.signed_prekey_public_key),
            x25519_shared(fresh, bundle.one_time_prekey_public_key),
        ),
        RatchetRole::Alice,
        fresh,
        bundle.signed_prekey_public_key,
    )
}

/// Whether `result` is what a read gave.
pub open spec fn is_read(
    result: Result<String, CryptoError>,
    read: Result<Seq<char>, CryptoError>,
) -> bool {
    match result {
        Ok(text) => read == Ok::<Seq<char>, CryptoError>(text@),
        Err(error) => read == Err::<Seq<char>, CryptoError>(error),
    }
}

struct OneTimePreKey {
    id: u64,
    keys: X25519KeyPair,
}

impl OneTimePreKey {
    fn generate(id: u64) -> (prekey: OneTimePreKey)
        ensures
            prekey.id == id,
            prekey.keys.secret().len() == 32,
    {
        OneTimePreKey { id, keys: X25519KeyPair::generate() }
    }

    fn state(&self) -> (state: OneTimePreKeyState)
        ensures
            state.id == self.id,
            state.private_key@ == self.keys.secret(),
    {
        OneTimePreKeyState { id: self.id, private_key: self.keys.private_key_bytes() }
    }

    fn from_state(state: OneTimePreKeyState) -> (prekey: OneTimePreKey)
        ensures
            prekey.id == state.id,
            prekey.keys.secret() == state.private_key@,
    {
        OneTimePreKey {
            id: state.id,
            keys: X25519KeyPair::from_private_bytes(state.private_key),
        }
    }
}

spec fn session_view(session: Option<RatchetSession>) -> Option<SessionView> {
    match session {
        Some(session) => Some(session@),
        None => None,
    }
}

fn export_session(session: &Option<RatchetSession>) -> (state: Option<RatchetSessionState>)
    ensures
        stored_session(state) == session_view(*session),
        state matches Some(state) ==> state.is_sorted(),
{
    match session {
        Some(session) => Some(session.state()),
        None => None,
    }
}

fn import_session(state: Option<RatchetSessionState>) -> (session: Option<RatchetSession>)
    ensures
        session_view(session) == stored_session(state),
{
    match state {
        Some(state) => Some(RatchetSession::from_state(state)),
        None => None,
    }
}

/// The party that opens a conversation.
pub struct Alice {
    identity: IdentityKeyPair,
    keys: X25519KeyPair,
    session: Option<RatchetSession>,
}

impl View for Alice {
    type V = AliceView;

    closed spec fn view(&self) -> AliceView {
        AliceView {
            identity_secret_key: self.identity.secret(),
            x25519_private_key: self.keys.secret(),
            session: session_view(self.session),
        }
    }
}

impl Alice {
    /// A party with fresh keys and no session.
    pub fn local() -> (alice: Alice)
        ensures
            alice@.session is None,
            alice@.x25519_private_key.len() == 32,
            alice@.identity_secret_key.len() == 32,
    {
        Alice {
            identity: IdentityKeyPair::generate(),
            keys: X25519KeyPair::generate(),
            session: None,
        }
    }

    pub fn public_key(&self) -> (public: PublicKeyBytes)
        ensures
            public@ == x25519_public(self@.x25519_private_key),
    {
        self.keys.public_key()
    }

    pub fn signed_key_exchange(&self) -> (exchange: SignedKeyExchange)
        ensures
            is_exchange_of(exchange, self@.identity_secret_key, self@.x25519_private_key),
    {
        self.identity.sign_key_exchange(self.public_key())
    }

    /// Starts a session from Bob's signed key exchange.
    pub fn derive_session_key(&mut self, bob_exchange: &SignedKeyExchange) -> (derived: Result<
        (),
        CryptoError,
    >)
        ensures
            derived is Ok <==> bob_exchange.is_signed(),
            derived matches Err(error) ==> error == CryptoError::SignatureVerification
                && final(self)@ == old(self)@,
            derived is Ok ==> final(self)@ == (AliceView {
                session: Some(
                    SessionView::start(
                        aead_key(old(self)@.x25519_private_key, bob_exchange.x25519_public_key@),
                        RatchetRole::Alice,
                        old(self)@.x25519_private_key,
                        bob_exchange.x25519_public_key@,
                    ),
                ),
                ..old(self)@
            }),
            derived is Ok ==> forall|peer: Seq<u8>| #[trigger]
                x25519_public(peer) == bob_exchange.x25519_public_key@ && peer.len() == 32
                    ==> secrets_agree(old(self)@.x25519_private_key, peer),
    {
        verify_signed_key_exchange(bob_exchange)?;
        let key = self.keys.derive_aead_key(bob_exchange.x25519_public_key)?;
        let session = RatchetSession::new(
            key,
            RatchetRole::Alice,
            self.keys.duplicate(),
            bob_exchange.x25519_public_key,
        )?;
        self.session = Some(session);
        Ok(())
    }

    pub fn encrypt_for_bob(&mut self, message: &str) -> (sent: Result<RatchetMessage, CryptoError>)
        requires
            old(self)@.session matches Some(session) ==> session.can_send(),
            !aead_overruns(utf8(message@).len() as int),
        ensures
            old(self)@.session is None ==> final(self)@ == old(self)@ && sent == Err::<
                RatchetMessage,
                CryptoError,
            >(CryptoError::MissingSessionKey),
            old(self)@.session matches Some(session) ==> {
                &&& final(self)@ == (AliceView {
                    session: Some(session.send_advanced()),
                    ..old(self)@
                })
                &&& sent is Err <==> utf8(message@).len() >= 64 * 0xffff_ffff
                &&& sent matches Err(error) ==> error == CryptoError::Encrypt
                &&& sent matches Ok(sent) ==> old(self)@.says(sent@, message@)
            },
    {
        match &mut self.session {
            Some(session) => session.encrypt(message),
            None => Err(CryptoError::MissingSessionKey),
        }
    }

    pub fn decrypt_from_bob(&mut self, message: &RatchetMessage) -> (text: Result<
        String,
        CryptoError,
    >)
        requires
            old(self)@.session matches Some(session) ==> session.can_receive(message@),
            !aead_overruns(message.ciphertext@.len() - 16),
        ensures
            final(self)@ == old(self)@.reading(message@).0,
            is_read(text, old(self)@.reading(message@).1),
    {
        match &mut self.session {
            Some(session) => session.decrypt(message),
            None => Err(CryptoError::MissingSessionKey),
        }
    }

    /// Opens a session with a published bundle and sends the first message on it, under
    /// a fresh key that the session then keeps.
    pub fn encrypt_initial_message(&mut self, bundle: &PreKeyBundle, message: &str) -> (sent:
        Result<InitialMessage, CryptoError>)
        requires
            !aead_overruns(utf8(message@).len() as int),
        ensures
            !bundle@.is_signed() ==> final(self)@ == old(self)@ && sent == Err::<
                InitialMessage,
                CryptoError,
            >(CryptoError::SignatureVerification),
            bundle@.is_signed() ==> {
                &&& final(self)@.session matches Some(session)
                &&& session.dh_private.len() == 32
                &&& final(self)@ == (AliceView {
                    session: Some(opened_with(bundle@, session.dh_private).send_advanced()),
                    ..old(self)@
                })
                &&& sent is Err <==> utf8(message@).len() >= 64 * 0xffff_ffff
                &&& sent matches Err(error) ==> error == CryptoError::Encrypt
                &&& sent matches Ok(sent) ==> {
                    &&& is_sent(
                        opened_with(bundle@, session.dh_private),
                        sent@.message,
                        message@,
                    )
                    &&& sent@.alice_initial_public_key == x25519_public(session.dh_private)
                    &&& sent@.one_time_prekey_id == bundle@.one_time_prekey_id
                }
                &&& forall|peer: Seq<u8>|
                    peer.len() == 32 && (#[trigger] x25519_public(peer)
                        == bundle@.signed_prekey_public_key || x25519_public(peer)
                        == bundle@.one_time_prekey_public_key) ==> secrets_agree(
                        session.dh_private,
                        peer,
                    )
            },
    {
        verify_signed_prekey(bundle)?;
        let initial_keys = X25519KeyPair::generate();
        let first_dh = initial_keys.dh_bytes(bundle.signed_prekey_public_key);
        let second_dh = initial_keys.dh_bytes(bundle.one_time_prekey_public_key);
        let key = derive_prekey_aead_key(first_dh, second_dh)?;
        let session = RatchetSession::new(
            key,
            RatchetRole::Alice,
            initial_keys,
            bundle.signed_prekey_public_key,
        )?;
        self.session = Some(session);
        let ciphertext = self.encrypt_for_bob(message)?;
        Ok(
            InitialMessage {
                alice_initial_public_key: ciphertext.ratchet_public_key,
                one_time_prekey_id: bundle.one_time_prekey_id,
                message: ciphertext,
            },
        )
    }

    /// Takes a fresh ratchet key for what is sent from now on.
    pub fn rotate_sending_ratchet(&mut self) -> (rotated: Result<(), CryptoError>)
        ensures
            old(self)@.session is None ==> final(self)@ == old(self)@ && rotated == Err::<
                (),
                CryptoError,
            >(CryptoError::MissingSessionKey),
            old(self)@.session matches Some(session) ==> {
                &&& rotated is Ok
                &&& final(self)@.session matches Some(after)
                &&& after.dh_private.len() == 32
                &&& final(self)@ == (AliceView {
                    session: Some(session.rotated(after.dh_private)),
                    ..old(self)@
                })
                &&& forall|peer: Seq<u8>| #[trigger]
                    x25519_public(peer) == session.peer && peer.len() == 32 ==> secrets_agree(
                        after.dh_private,
                        peer,
                    )
            },
    {
        match &mut self.session {
            Some(session) => session.rotate_sending_ratchet(),
            None => Err(CryptoError::MissingSessionKey),
        }
    }

    pub fn export_state(&self) -> (state: AliceState)
        ensures
            state.party() == self@,
            is_sorted_state(state.session),
    {
        AliceState {
            identity_secret_key: self.identity.secret_key_bytes(),
            x25519_private_key: self.keys.private_key_bytes(),
            session: export_session(&self.session),
        }
    }

    pub fn from_state(state: AliceState) -> (alice: Alice)
        ensures
            alice@ == state.party(),
    {
        Alice {
            identity: IdentityKeyPair::from_secret_bytes(state.identity_secret_key),
            keys: X25519KeyPair::from_private_bytes(state.x25519_private_key),
            session: import_session(state.session),
        }
    }

    pub fn session_state(&self) -> (state: Option<RatchetSessionState>)
        ensures
            stored_session(state) == self@.session,
            state matches Some(state) ==> state.is_sorted(),
    {
        export_session(&self.session)
    }
}

/// The party that can be written to while away.
pub struct Bob {
    identity: IdentityKeyPair,
    keys: X25519KeyPair,
    signed_prekey: X25519KeyPair,
    one_time_prekey: Option<OneTimePreKey>,
    session: Option<RatchetSession>,
}

impl View for Bob {
    type V = BobView;

    closed spec fn view(&self) -> BobView {
        BobView {
            identity_secret_key: self.identity.secret(),
            x25519_private_key: self.keys.secret(),
            signed_prekey_private_key: self.signed_prekey.secret(),
            one_time_prekey: match self.one_time_prekey {
                Some(prekey) => Some((prekey.id, prekey.keys.secret())),
                None => None,
            },
            session: session_view(self.session),
        }
    }
}

impl Bob {
    /// A party with fresh keys, one fresh prekey and no session.
    pub fn local() -> (bob: Bob)
        ensures
            bob@.session is None,
            bob@.one_time_prekey matches Some(prekey) && prekey.0 == 1 && prekey.1.len() == 32,
            bob@.identity_secret_key.len() == 32,
            bob@.x25519_private_key.len() == 32,
            bob@.signed_prekey_private_key.len() == 32,
    {
        Bob {
            identity: IdentityKeyPair::generate(),
            keys: X25519KeyPair::generate(),
            signed_prekey: X25519KeyPair::generate(),
            one_time_prekey: Some(OneTimePreKey::generate(1)),
            session: None,
        }
    }

    /// The party that the mailbox demonstration writes to, with fixed keys.
    pub fn mailbox_demo() -> (bob: Bob)
        ensures
            bob@ == (BobView {
                identity_secret_key: Seq::new(32, |i: int| 0x3du8),
                x25519_private_key: Seq::new(32, |i: int| 0x3eu8),
                signed_prekey_private_key: Seq::new(32, |i: int| 0x3fu8),
                one_time_prekey: Some((1u64, Seq::new(32, |i: int| 0x40u8))),
                session: None,
            }),
    {
        let identity_bytes: [u8; 32] = [0x3du8; 32];
        let key_bytes: [u8; 32] = [0x3eu8; 32];
        let signed_prekey_bytes: [u8; 32] = [0x3fu8; 32];
        let one_time_prekey_bytes: [u8; 32] = [0x40u8; 32];
        assert(identity_bytes@ =~= Seq::new(32, |i: int| 0x3du8));
        assert(key_bytes@ =~= Seq::new(32, |i: int| 0x3eu8));
        assert(signed_prekey_bytes@ =~= Seq::new(32, |i: int| 0x3fu8));
        assert(one_time_prekey_bytes@ =~= Seq::new(32, |i: int| 0x40u8));
        Bob {
            identity: IdentityKeyPair::from_secret_bytes(identity_bytes),
            keys: X25519KeyPair::from_private_bytes(key_bytes),
            signed_prekey: X25519KeyPair::from_private_bytes(signed_prekey_bytes),
            one_time_prekey: Some(
                OneTimePreKey {
                    id: 1,
                    keys: X25519KeyPair::from_private_bytes(one_time_prekey_bytes),
                },
            ),
            session: None,
        }
    }

    /// The bundle of the party that the mailbox demonstration writes to.
    pub fn mailbox_demo_prekey_bundle() -> (bundle: Result<PreKeyBundle, CryptoError>)
        ensures
            bundle matches Ok(bundle) && is_bundle_of(
                bundle@,
                BobView {
                    identity_secret_key: Seq::new(32, |i: int| 0x3du8),
                    x25519_private_key: Seq::new(32, |i: int| 0x3eu8),
                    signed_prekey_private_key: Seq::new(32, |i: int| 0x3fu8),
                    one_time_prekey: Some((1u64, Seq::new(32, |i: int| 0x40u8))),
                    session: None,
                },
            ),
    {
        Bob::mailbox_demo().prekey_bundle()
    }

    pub fn public_key(&self) -> (public: PublicKeyBytes)
        ensures
            public@ == x25519_public(self@.x25519_private_key),
    {
        self.keys.public_key()
    }

    pub fn signed_key_exchange(&self) -> (exchange: SignedKeyExchange)
        ensures
            is_exchange_of(exchange, self@.identity_secret_key, self@.x25519_private_key),
    {
        self.identity.sign_key_exchange(self.public_key())
    }

    /// Makes a fresh prekey with a number, unless there is one that was not used yet.
    pub fn replenish_one_time_prekey(&mut self, id: u64)
        ensures
            old(self)@.one_time_prekey is Some ==> final(self)@ == old(self)@,
            old(self)@.one_time_prekey is None ==> {
                &&& final(self)@.one_time_prekey matches Some(prekey)
                &&& prekey.0 == id
                &&& prekey.1.len() == 32
                &&& final(self)@ == (BobView {
                    one_time_prekey: final(self)@.one_time_prekey,
                    ..old(self)@
                })
            },
    {
        if self.one_time_prekey.is_none() {
            self.one_time_prekey = Some(OneTimePreKey::generate(id));
        }
    }

    /// The bundle to publish. There is none once the prekey was used.
    pub fn prekey_bundle(&self) -> (bundle: Result<PreKeyBundle, CryptoError>)
        ensures
            bundle is Ok <==> self@.one_time_prekey is Some,
            bundle matches Err(error) ==> error == CryptoError::PreKeyUnavailable,
            bundle matches Ok(bundle) ==> is_bundle_of(bundle@, self@),
    {
        match &self.one_time_prekey {
            None => Err(CryptoError::PreKeyUnavailable),
            Some(one_time_prekey) => {
                let signed_prekey_public_key = self.signed_prekey.public_key();
                Ok(
                    PreKeyBundle {
                        identity_public_key: self.identity.public_key(),
                        signed_prekey_public_key,
                        signed_prekey_signature: self.identity.sign_prekey(
                            signed_prekey_public_key,
                        ),
                        one_time_prekey_id: one_time_prekey.id,
                        one_time_prekey_public_key: one_time_prekey.keys.public_key(),
                    },
                )
            },
        }
    }

    /// Starts a session from Alice's signed key exchange.
    pub fn derive_session_key(&mut self, alice_exchange: &SignedKeyExchange) -> (derived: Result<
        (),
        CryptoError,
    >)
        ensures
            derived is Ok <==> alice_exchange.is_signed(),
            derived matches Err(error) ==> error == CryptoError::SignatureVerification
                && final(self)@ == old(self)@,
            derived is Ok ==> final(self)@ == (BobView {
                session: Some(
                    SessionView::start(
                        aead_key(old(self)@.x25519_private_key, alice_exchange.x25519_public_key@),
                        RatchetRole::Bob,
                        old(self)@.x25519_private_key,
                        alice_exchange.x25519_public_key@,
                    ),
                ),
                ..old(self)@
            }),
            derived is Ok ==> forall|peer: Seq<u8>| #[trigger]
                x25519_public(peer) == alice_exchange.x25519_public_key@ && peer.len() == 32
                    ==> secrets_agree(old(self)@.x25519_private_key, peer),
    {
        verify_signed_key_exchange(alice_exchange)?;
        let key = self.keys.derive_aead_key(alice_exchange.x25519_public_key)?;
        let session = RatchetSession::new(
            key,
            RatchetRole::Bob,
            self.keys.duplicate(),
            alice_exchange.x25519_public_key,
        )?;
        self.session = Some(session);
        Ok(())
    }

    pub fn decrypt_from_alice(&mut self, message: &RatchetMessage) -> (text: Result<
        String,
        CryptoError,
    >)
        requires
            old(self)@.session matches Some(session) ==> session.can_receive(message@),
            !aead_overruns(message.ciphertext@.len() - 16),
        ensures
            final(self)@ == old(self)@.reading(message@).0,
            is_read(text, old(self)@.reading(message@).1),
    {
        match &mut self.session {
            Some(session) => session.decrypt(message),
            None => Err(CryptoError::MissingSessionKey),
        }
    }

    /// Whether a message can be handed to the session: the message counter can count it, and
    /// the cipher answers on it.
    pub fn can_decrypt(&self, message: &RatchetMessage) -> (answer: bool)
        ensures
            answer == {
                &&& self@.session matches Some(session) ==> session.can_receive(message@)
                &&& !aead_overruns(message.ciphertext@.len() - 16)
            },
    {
        let counts = match &self.session {
            Some(session) => session.can_receive(message),
            None => true,
        };
        counts && is_within_cipher(message)
    }

    pub fn encrypt_for_alice(&mut self, message: &str) -> (sent: Result<
        RatchetMessage,
        CryptoError,
    >)
        requires
            old(self)@.session matches Some(session) ==> session.can_send(),
            !aead_overruns(utf8(message@).len() as int),
        ensures
            old(self)@.session is None ==> final(self)@ == old(self)@ && sent == Err::<
                RatchetMessage,
                CryptoError,
            >(CryptoError::MissingSessionKey),
            old(self)@.session matches Some(session) ==> {
                &&& final(self)@ == (BobView {
                    session: Some(session.send_advanced()),
                    ..old(self)@
                })
                &&& sent is Err <==> utf8(message@).len() >= 64 * 0xffff_ffff
                &&& sent matches Err(error) ==> error == CryptoError::Encrypt
                &&& sent matches Ok(sent) ==> old(self)@.says(sent@, message@)
            },
    {
        match &mut self.session {
            Some(session) => session.encrypt(message),
            None => Err(CryptoError::MissingSessionKey),
        }
    }

    /// Reads the first message of a conversation. It uses up the one-time prekey.
    pub fn decrypt_initial_message(&mut self, message: &InitialMessage) -> (text: Result<
        String,
        CryptoError,
    >)
        requires
            !aead_overruns(message.message.ciphertext@.len() - 16),
        ensures
            final(self)@ == old(self)@.receiving_initial(message@).0,
            is_read(text, old(self)@.receiving_initial(message@).1),
    {
        let one_time_prekey = match self.one_time_prekey.take() {
            Some(one_time_prekey) => one_time_prekey,
            None => {
                return Err(CryptoError::PreKeyUnavailable);
            },
        };
        if one_time_prekey.id != message.one_time_prekey_id {
            self.one_time_prekey = Some(one_time_prekey);
            return Err(CryptoError::PreKeyUnavailable);
        }
        let first_dh = self.signed_prekey.dh_bytes(message.alice_initial_public_key);
        let second_dh = one_time_prekey.keys.dh_bytes(message.alice_initial_public_key);
        let key = derive_prekey_aead_key(first_dh, second_dh)?;
        let session = RatchetSession::new(
            key,
            RatchetRole::Bob,
            self.signed_prekey.duplicate(),
            message.alice_initial_public_key,
        )?;
        proof {
            let opened = session@;
            assert(chain_after(opened.recv_chain_key, 0) == opened.recv_chain_key);
            law_counter_has_room(opened, opened.recv_chain_key, message.message@);
        }
        self.session = Some(session);
        self.decrypt_from_alice(&message.message)
    }

    pub fn export_state(&self) -> (state: BobState)
        ensures
            state.party() == self@,
            is_sorted_state(state.session),
    {
        BobState {
            identity_secret_key: self.identity.secret_key_bytes(),
            x25519_private_key: self.keys.private_key_bytes(),
            signed_prekey_private_key: self.signed_prekey.private_key_bytes(),
            one_time_prekey: match &self.one_time_prekey {
                Some(prekey) => Some(prekey.state()),
                None => None,
            },
            session: export_session(&self.session),
        }
    }

    pub fn from_state(state: BobState) -> (bob: Bob)
        ensures
            bob@ == state.party(),
    {
        Bob {
            identity: IdentityKeyPair::from_secret_bytes(state.identity_secret_key),
            keys: X25519KeyPair::from_private_bytes(state.x25519_private_key),
            signed_prekey: X25519KeyPair::from_private_bytes(state.signed_prekey_private_key),
            one_time_prekey: match state.one_time_prekey {
                Some(prekey) => Some(OneTimePreKey::from_state(prekey)),
                None => None,
            },
            session: import_session(state.session),
        }
    }

    pub fn session_state(&self) -> (state: Option<RatchetSessionState>)
        ensures
            stored_session(state) == self@.session,
            state matches Some(state) ==> state.is_sorted(),
    {
        export_session(&self.session)
    }
}

/// A place where Bob leaves a bundle and Alice picks it up, once.
pub struct SimulatedDirectory {
    bob_bundle: Option<PreKeyBundle>,
}

impl View for SimulatedDirectory {
    type V = Option<BundleView>;

    closed spec fn view(&self) -> Option<BundleView> {
        match self.bob_bundle {
            Some(bundle) => Some(bundle@),
            None => None,
        }
    }
}

impl SimulatedDirectory {
    pub fn new() -> (directory: SimulatedDirectory)
        ensures
            directory@ is None,
    {
        SimulatedDirectory { bob_bundle: None }
    }

    /// Publishes Bob's bundle, or leaves the directory as it was where Bob has none.
    pub fn publish_bob_bundle(&mut self, bob: &Bob) -> (published: Result<(), CryptoError>)
        ensures
            published is Ok <==> bob@.one_time_prekey is Some,
            published matches Err(error) ==> error == CryptoError::PreKeyUnavailable
                && final(self)@ == old(self)@,
            published is Ok ==> (final(self)@ matches Some(bundle) && is_bundle_of(bundle, bob@)),
    {
        let bundle = bob.prekey_bundle()?;
        self.bob_bundle = Some(bundle);
        Ok(())
    }

    /// Takes the bundle out of the directory.
    pub fn take_bob_prekey_bundle(&mut self) -> (bundle: Result<PreKeyBundle, CryptoError>)
        ensures
            final(self)@ is None,
            match bundle {
                Ok(bundle) => old(self)@ == Some(bundle@),
                Err(error) => old(self)@ is None && error == CryptoError::PreKeyUnavailable,
            },
    {
        match self.bob_bundle.take() {
            Some(bundle) => Ok(bundle),
            None => Err(CryptoError::PreKeyUnavailable),
        }
    }
}

impl Default for SimulatedDirectory {
    fn default() -> (directory: SimulatedDirectory)
        ensures
            directory@ is None,
    {
        SimulatedDirectory::new()
    }
}

/// Hands a payload over unchanged.
pub fn send_over_simulated_transport<T>(payload: T) -> (delivered: T)
    ensures
        delivered == payload,
{
    payload
}

} // verus!
