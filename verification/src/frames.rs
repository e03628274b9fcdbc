//! What clients send each other, in its binary form.

use crate::bytes::{copy_text, utf8};
use crate::chat::{display_name_or_anonymous, law_shown_name_is_not_blank, shown_name};
use crate::codec::{
    begins_with, le_bytes, lemma_begins_with_parts, lemma_fits, lemma_number_is_read_back,
};
use crate::identity::{BundleView, IdentityPublicKeyBytes, PreKeyBundle, SignedKeyExchange};
use crate::invite::{hex_decode, unhex, HexError};
use crate::party::{InitialMessage, InitialView};
use crate::session::{MessageView, RatchetMessage};
use crate::sorted::option_view;
use crate::wire::{decode, decoding, read_tag, write_option, write_tag, Maybe, Wire};
use vstd::prelude::*;

verus! {

/// The fields of a message of a session.
pub type RatchetMessageWire = (u64, ([u8; 32], Vec<u8>));

pub open spec fn message_parts(contents: MessageView) -> (u64, (Seq<u8>, Seq<u8>)) {
    (contents.number, (contents.ratchet_public_key, contents.ciphertext))
}

impl Wire for RatchetMessage {
    open spec fn valid(contents: MessageView) -> bool {
        <RatchetMessageWire as Wire>::valid(message_parts(contents))
    }

    open spec fn encoded(contents: MessageView) -> Seq<u8> {
        <RatchetMessageWire as Wire>::encoded(message_parts(contents))
    }

    proof fn contents_are_valid(&self) {
        self.number.contents_are_valid();
        self.ratchet_public_key.contents_are_valid();
        self.ciphertext.contents_are_valid();
    }

    proof fn begins_with_one(bytes: Seq<u8>, a: MessageView, b: MessageView) {
        <RatchetMessageWire as Wire>::begins_with_one(bytes, message_parts(a), message_parts(b));
    }

    fn write(&self, bytes: &mut Vec<u8>) {
        self.number.write(bytes);
        self.ratchet_public_key.write(bytes);
        self.ciphertext.write(bytes);
        assert(bytes@ =~= old(bytes)@ + Self::encoded(self@));
    }

    fn read(bytes: &[u8], at: usize) -> (read: Option<(RatchetMessage, usize)>) {
        match <RatchetMessageWire as Wire>::read(bytes, at) {
            Some(((number, (ratchet_public_key, ciphertext)), next)) => {
                let value = RatchetMessage {
                    number,
                    ratchet_public_key,
                    ciphertext,
                };
                assert(message_parts(value@) == (number@, (ratchet_public_key@, ciphertext@)));
                Some((value, next))
            },
            None => {
                proof {
                    assert forall|contents: MessageView|
                        Self::valid(contents) implies !begins_with(
                        bytes@.skip(at as int),
                        #[trigger] Self::encoded(contents),
                    ) by {
                        assert(<RatchetMessageWire as Wire>::valid(message_parts(contents)));
                    }
                }
                None
            },
        }
    }
}

/// The fields of a first message.
pub type InitialMessageWire = ([u8; 32], (u64, RatchetMessage));

pub open spec fn initial_parts(contents: InitialView) -> (Seq<u8>, (u64, MessageView)) {
    (contents.alice_initial_public_key, (contents.one_time_prekey_id, contents.message))
}

impl Wire for InitialMessage {
    open spec fn valid(contents: InitialView) -> bool {
        <InitialMessageWire as Wire>::valid(initial_parts(contents))
    }

    open spec fn encoded(contents: InitialView) -> Seq<u8> {
        <InitialMessageWire as Wire>::encoded(initial_parts(contents))
    }

    proof fn contents_are_valid(&self) {
        self.alice_initial_public_key.contents_are_valid();
        self.one_time_prekey_id.contents_are_valid();
        self.message.contents_are_valid();
    }

    proof fn begins_with_one(bytes: Seq<u8>, a: InitialView, b: InitialView) {
        <InitialMessageWire as Wire>::begins_with_one(bytes, initial_parts(a), initial_parts(b));
    }

    fn write(&self, bytes: &mut Vec<u8>) {
        self.alice_initial_public_key.write(bytes);
        self.one_time_prekey_id.write(bytes);
        self.message.write(bytes);
        assert(bytes@ =~= old(bytes)@ + Self::encoded(self@));
    }

    fn read(bytes: &[u8], at: usize) -> (read: Option<(InitialMessage, usize)>) {
        match <InitialMessageWire as Wire>::read(bytes, at) {
            Some(((alice_initial_public_key, (one_time_prekey_id, message)), next)) => {
                let value = InitialMessage {
                    alice_initial_public_key,
                    one_time_prekey_id,
                    message,
                };
                assert(initial_parts(value@) == (alice_initial_public_key@, (one_time_prekey_id@, message@)));
                Some((value, next))
            },
            None => {
                proof {
                    assert forall|contents: InitialView|
                        Self::valid(contents) implies !begins_with(
                        bytes@.skip(at as int),
                        #[trigger] Self::encoded(contents),
                    ) by {
                        assert(<InitialMessageWire as Wire>::valid(initial_parts(contents)));
                    }
                }
                None
            },
        }
    }
}

/// The fields of a bundle.
pub type PreKeyBundleWire = ([u8; 32], ([u8; 32], (Vec<u8>, (u64, [u8; 32]))));

pub open spec fn bundle_parts(contents: BundleView) -> (Seq<u8>, (Seq<u8>, (Seq<u8>, (u64, Seq<u8>)))) {
    (contents.identity_public_key, (contents.signed_prekey_public_key, (contents.signed_prekey_signature, (contents.one_time_prekey_id, contents.one_time_prekey_public_key))))
}

impl Wire for PreKeyBundle {
    open spec fn valid(contents: BundleView) -> bool {
        <PreKeyBundleWire as Wire>::valid(bundle_parts(contents))
    }

    open spec fn encoded(contents: BundleView) -> Seq<u8> {
        <PreKeyBundleWire as Wire>::encoded(bundle_parts(contents))
    }

    proof fn contents_are_valid(&self) {
        self.identity_public_key.contents_are_valid();
        self.signed_prekey_public_key.contents_are_valid();
        self.signed_prekey_signature.contents_are_valid();
        self.one_time_prekey_id.contents_are_valid();
        self.one_time_prekey_public_key.contents_are_valid();
    }

    proof fn begins_with_one(bytes: Seq<u8>, a: BundleView, b: BundleView) {
        <PreKeyBundleWire as Wire>::begins_with_one(bytes, bundle_parts(a), bundle_parts(b));
    }

    fn write(&self, bytes: &mut Vec<u8>) {
        self.identity_public_key.write(bytes);
        self.signed_prekey_public_key.write(bytes);
        self.signed_prekey_signature.write(bytes);
        self.one_time_prekey_id.write(bytes);
        self.one_time_prekey_public_key.write(bytes);
        assert(bytes@ =~= old(bytes)@ + Self::encoded(self@));
    }

    fn read(bytes: &[u8], at: usize) -> (read: Option<(PreKeyBundle, usize)>) {
        match <PreKeyBundleWire as Wire>::read(bytes, at) {
            Some(((identity_public_key, (signed_prekey_public_key, (signed_prekey_signature, (one_time_prekey_id, one_time_prekey_public_key)))), next)) => {
                let value = PreKeyBundle {
                    identity_public_key,
                    signed_prekey_public_key,
                    signed_prekey_signature,
                    one_time_prekey_id,
                    one_time_prekey_public_key,
                };
                assert(bundle_parts(value@) == (identity_public_key@, (signed_prekey_public_key@, (signed_prekey_signature@, (one_time_prekey_id@, one_time_prekey_public_key@)))));
                Some((value, next))
            },
            None => {
                proof {
                    assert forall|contents: BundleView|
                        Self::valid(contents) implies !begins_with(
                        bytes@.skip(at as int),
                        #[trigger] Self::encoded(contents),
                    ) by {
                        assert(<PreKeyBundleWire as Wire>::valid(bundle_parts(contents)));
                    }
                }
                None
            },
        }
    }
}

/// The contents of a `SignedKeyExchange`.
#[verifier::ext_equal]
pub struct ExchangeView {
    pub identity_public_key: Seq<u8>,
    pub x25519_public_key: Seq<u8>,
    pub signature: Seq<u8>,
}

impl View for SignedKeyExchange {
    type V = ExchangeView;

    open spec fn view(&self) -> ExchangeView {
        ExchangeView {
            identity_public_key: self.identity_public_key@,
            x25519_public_key: self.x25519_public_key@,
            signature: self.signature@,
        }
    }
}

/// The fields of a key exchange.
pub type SignedKeyExchangeWire = ([u8; 32], ([u8; 32], Vec<u8>));

pub open spec fn exchange_parts(contents: ExchangeView) -> (Seq<u8>, (Seq<u8>, Seq<u8>)) {
    (contents.identity_public_key, (contents.x25519_public_key, contents.signature))
}

impl Wire for SignedKeyExchange {
    open spec fn valid(contents: ExchangeView) -> bool {
        <SignedKeyExchangeWire as Wire>::valid(exchange_parts(contents))
    }

    open spec fn encoded(contents: ExchangeView) -> Seq<u8> {
        <SignedKeyExchangeWire as Wire>::encoded(exchange_parts(contents))
    }

    proof fn contents_are_valid(&self) {
        self.identity_public_key.contents_are_valid();
        self.x25519_public_key.contents_are_valid();
        self.signature.contents_are_valid();
    }

    proof fn begins_with_one(bytes: Seq<u8>, a: ExchangeView, b: ExchangeView) {
        <SignedKeyExchangeWire as Wire>::begins_with_one(bytes, exchange_parts(a), exchange_parts(b));
    }

    fn write(&self, bytes: &mut Vec<u8>) {
        self.identity_public_key.write(bytes);
        self.x25519_public_key.write(bytes);
        self.signature.write(bytes);
        assert(bytes@ =~= old(bytes)@ + Self::encoded(self@));
    }

    fn read(bytes: &[u8], at: usize) -> (read: Option<(SignedKeyExchange, usize)>) {
        match <SignedKeyExchangeWire as Wire>::read(bytes, at) {
            Some(((identity_public_key, (x25519_public_key, signature)), next)) => {
                let value = SignedKeyExchange {
                    identity_public_key,
                    x25519_public_key,
                    signature,
                };
                assert(exchange_parts(value@) == (identity_public_key@, (x25519_public_key@, signature@)));
                Some((value, next))
            },
            None => {
                proof {
                    assert forall|contents: ExchangeView|
                        Self::valid(contents) implies !begins_with(
                        bytes@.skip(at as int),
                        #[trigger] Self::encoded(contents),
                    ) by {
                        assert(<SignedKeyExchangeWire as Wire>::valid(exchange_parts(contents)));
                    }
                }
                None
            },
        }
    }
}

/// A bundle with the name of the party that offers it.
#[derive(Debug, Clone, PartialEq, Eq)]
pub struct ChatPreKeyBundle {
    pub sender_display_name: String,
    pub bundle: PreKeyBundle,
}

/// The contents of a `ChatPreKeyBundle`.
#[verifier::ext_equal]
pub struct ChatBundleView {
    pub sender_display_name: Seq<char>,
    pub bundle: BundleView,
}

impl View for ChatPreKeyBundle {
    type V = ChatBundleView;

    open spec fn view(&self) -> ChatBundleView {
        ChatBundleView {
            sender_display_name: self.sender_display_name@,
            bundle: self.bundle@,
        }
    }
}

/// The fields of a named bundle.
pub type ChatPreKeyBundleWire = (String, PreKeyBundle);

pub open spec fn chat_bundle_parts(contents: ChatBundleView) -> (Seq<char>, BundleView) {
    (contents.sender_display_name, contents.bundle)
}

impl Wire for ChatPreKeyBundle {
    open spec fn valid(contents: ChatBundleView) -> bool {
        <ChatPreKeyBundleWire as Wire>::valid(chat_bundle_parts(contents))
    }

    open spec fn encoded(contents: ChatBundleView) -> Seq<u8> {
        <ChatPreKeyBundleWire as Wire>::encoded(chat_bundle_parts(contents))
    }

    proof fn contents_are_valid(&self) {
        self.sender_display_name.contents_are_valid();
        self.bundle.contents_are_valid();
    }

    proof fn begins_with_one(bytes: Seq<u8>, a: ChatBundleView, b: ChatBundleView) {
        <ChatPreKeyBundleWire as Wire>::begins_with_one(bytes, chat_bundle_parts(a), chat_bundle_parts(b));
    }

    fn write(&self, bytes: &mut Vec<u8>) {
        self.sender_display_name.write(bytes);
        self.bundle.write(bytes);
        assert(bytes@ =~= old(bytes)@ + Self::encoded(self@));
    }

    fn read(bytes: &[u8], at: usize) -> (read: Option<(ChatPreKeyBundle, usize)>) {
        match <ChatPreKeyBundleWire as Wire>::read(bytes, at) {
            Some(((sender_display_name, bundle), next)) => {
                let value = ChatPreKeyBundle {
                    sender_display_name,
                    bundle,
                };
                assert(chat_bundle_parts(value@) == (sender_display_name@, bundle@));
                Some((value, next))
            },
            None => {
                proof {
                    assert forall|contents: ChatBundleView|
                        Self::valid(contents) implies !begins_with(
                        bytes@.skip(at as int),
                        #[trigger] Self::encoded(contents),
                    ) by {
                        assert(<ChatPreKeyBundleWire as Wire>::valid(chat_bundle_parts(contents)));
                    }
                }
                None
            },
        }
    }
}

/// A first message with the name and the identity of its sender.
#[derive(Debug, Clone, PartialEq, Eq)]
pub struct ChatInitialMessage {
    pub sender_display_name: String,
    pub sender_identity_public_key: Option<IdentityPublicKeyBytes>,
    pub message: InitialMessage,
}

/// The contents of a `ChatInitialMessage`.
#[verifier::ext_equal]
pub struct ChatInitialView {
    pub sender_display_name: Seq<char>,
    pub sender_identity_public_key: Option<Seq<u8>>,
    pub message: InitialView,
}

impl View for ChatInitialMessage {
    type V = ChatInitialView;

    open spec fn view(&self) -> ChatInitialView {
        ChatInitialView {
            sender_display_name: self.sender_display_name@,
            sender_identity_public_key: option_view(self.sender_identity_public_key),
            message: self.message@,
        }
    }
}

/// The fields of a named first message.
pub type ChatInitialMessageWire = (String, (Maybe<[u8; 32]>, InitialMessage));

pub open spec fn chat_initial_parts(contents: ChatInitialView) -> (Seq<char>, (Option<Seq<u8>>, InitialView)) {
    (contents.sender_display_name, (contents.sender_identity_public_key, contents.message))
}

impl Wire for ChatInitialMessage {
    open spec fn valid(contents: ChatInitialView) -> bool {
        <ChatInitialMessageWire as Wire>::valid(chat_initial_parts(contents))
    }

    open spec fn encoded(contents: ChatInitialView) -> Seq<u8> {
        <ChatInitialMessageWire as Wire>::encoded(chat_initial_parts(contents))
    }

    proof fn contents_are_valid(&self) {
        self.sender_display_name.contents_are_valid();
        if let Some(value) = self.sender_identity_public_key {
            value.contents_are_valid();
        }
        self.message.contents_are_valid();
    }

    proof fn begins_with_one(bytes: Seq<u8>, a: ChatInitialView, b: ChatInitialView) {
        <ChatInitialMessageWire as Wire>::begins_with_one(bytes, chat_initial_parts(a), chat_initial_parts(b));
    }

    fn write(&self, bytes: &mut Vec<u8>) {
        self.sender_display_name.write(bytes);
        write_option(&self.sender_identity_public_key, bytes);
        self.message.write(bytes);
        assert(bytes@ =~= old(bytes)@ + Self::encoded(self@));
    }

    fn read(bytes: &[u8], at: usize) -> (read: Option<(ChatInitialMessage, usize)>) {
        match <ChatInitialMessageWire as Wire>::read(bytes, at) {
            Some(((sender_display_name, (sender_identity_public_key, message)), next)) => {
                let value = ChatInitialMessage {
                    sender_display_name,
                    sender_identity_public_key: sender_identity_public_key.value,
                    message,
                };
                assert(chat_initial_parts(value@) == (sender_display_name@, (sender_identity_public_key@, message@)));
                Some((value, next))
            },
            None => {
                proof {
                    assert forall|contents: ChatInitialView|
                        Self::valid(contents) implies !begins_with(
                        bytes@.skip(at as int),
                        #[trigger] Self::encoded(contents),
                    ) by {
                        assert(<ChatInitialMessageWire as Wire>::valid(chat_initial_parts(contents)));
                    }
                }
                None
            },
        }
    }
}

/// A first message with the name of its sender only, as older clients send it.
#[derive(Debug, Clone, PartialEq, Eq)]
pub struct LegacyChatInitialMessage {
    pub sender_display_name: String,
    pub message: InitialMessage,
}

/// The contents of a `LegacyChatInitialMessage`.
#[verifier::ext_equal]
pub struct LegacyInitialView {
    pub sender_display_name: Seq<char>,
    pub message: InitialView,
}

impl View for LegacyChatInitialMessage {
    type V = LegacyInitialView;

    open spec fn view(&self) -> LegacyInitialView {
        LegacyInitialView {
            sender_display_name: self.sender_display_name@,
            message: self.message@,
        }
    }
}

/// The fields of a first message of an older client.
pub type LegacyChatInitialMessageWire = (String, InitialMessage);

pub open spec fn legacy_initial_parts(contents: LegacyInitialView) -> (Seq<char>, InitialView) {
    (contents.sender_display_name, contents.message)
}

impl Wire for LegacyChatInitialMessage {
    open spec fn valid(contents: LegacyInitialView) -> bool {
        <LegacyChatInitialMessageWire as Wire>::valid(legacy_initial_parts(contents))
    }

    open spec fn encoded(contents: LegacyInitialView) -> Seq<u8> {
        <LegacyChatInitialMessageWire as Wire>::encoded(legacy_initial_parts(contents))
    }

    proof fn contents_are_valid(&self) {
        self.sender_display_name.contents_are_valid();
        self.message.contents_are_valid();
    }

    proof fn begins_with_one(bytes: Seq<u8>, a: LegacyInitialView, b: LegacyInitialView) {
        <LegacyChatInitialMessageWire as Wire>::begins_with_one(bytes, legacy_initial_parts(a), legacy_initial_parts(b));
    }

    fn write(&self, bytes: &mut Vec<u8>) {
        self.sender_display_name.write(bytes);
        self.message.write(bytes);
        assert(bytes@ =~= old(bytes)@ + Self::encoded(self@));
    }

    fn read(bytes: &[u8], at: usize) -> (read: Option<(LegacyChatInitialMessage, usize)>) {
        match <LegacyChatInitialMessageWire as Wire>::read(bytes, at) {
            Some(((sender_display_name, message), next)) => {
                let value = LegacyChatInitialMessage {
                    sender_display_name,
                    message,
                };
                assert(legacy_initial_parts(value@) == (sender_display_name@, message@));
                Some((value, next))
            },
            None => {
                proof {
                    assert forall|contents: LegacyInitialView|
                        Self::valid(contents) implies !begins_with(
                        bytes@.skip(at as int),
                        #[trigger] Self::encoded(contents),
                    ) by {
                        assert(<LegacyChatInitialMessageWire as Wire>::valid(legacy_initial_parts(contents)));
                    }
                }
                None
            },
        }
    }
}

/// A message under the id by which its receipt is confirmed.
#[derive(Debug, Clone, PartialEq, Eq)]
pub struct DurableAppEnvelope {
    pub message_id: String,
    pub message: RatchetMessage,
}

/// The contents of a `DurableAppEnvelope`.
#[verifier::ext_equal]
pub struct DurableView {
    pub message_id: Seq<char>,
    pub message: MessageView,
}

impl View for DurableAppEnvelope {
    type V = DurableView;

    open spec fn view(&self) -> DurableView {
        DurableView {
            message_id: self.message_id@,
            message: self.message@,
        }
    }
}

/// The fields of a message with an id.
pub type DurableAppEnvelopeWire = (String, RatchetMessage);

pub open spec fn durable_parts(contents: DurableView) -> (Seq<char>, MessageView) {
    (contents.message_id, contents.message)
}

impl Wire for DurableAppEnvelope {
    open spec fn valid(contents: DurableView) -> bool {
        <DurableAppEnvelopeWire as Wire>::valid(durable_parts(contents))
    }

    open spec fn encoded(contents: DurableView) -> Seq<u8> {
        <DurableAppEnvelopeWire as Wire>::encoded(durable_parts(contents))
    }

    proof fn contents_are_valid(&self) {
        self.message_id.contents_are_valid();
        self.message.contents_are_valid();
    }

    proof fn begins_with_one(bytes: Seq<u8>, a: DurableView, b: DurableView) {
        <DurableAppEnvelopeWire as Wire>::begins_with_one(bytes, durable_parts(a), durable_parts(b));
    }

    fn write(&self, bytes: &mut Vec<u8>) {
        self.message_id.write(bytes);
        self.message.write(bytes);
        assert(bytes@ =~= old(bytes)@ + Self::encoded(self@));
    }

    fn read(bytes: &[u8], at: usize) -> (read: Option<(DurableAppEnvelope, usize)>) {
        match <DurableAppEnvelopeWire as Wire>::read(bytes, at) {
            Some(((message_id, message), next)) => {
                let value = DurableAppEnvelope {
                    message_id,
                    message,
                };
                assert(durable_parts(value@) == (message_id@, message@));
                Some((value, next))
            },
            None => {
                proof {
                    assert forall|contents: DurableView|
                        Self::valid(contents) implies !begins_with(
                        bytes@.skip(at as int),
                        #[trigger] Self::encoded(contents),
                    ) by {
                        assert(<DurableAppEnvelopeWire as Wire>::valid(durable_parts(contents)));
                    }
                }
                None
            },
        }
    }
}

/// What the two sides of a chat send each other.
#[derive(Debug, Clone, PartialEq, Eq)]
pub enum ChatFrame {
    Message { message_id: String, sender_display_name: String, message: RatchetMessage },
    Ack { message_id: String },
}

/// The contents of a `ChatFrame`.
#[verifier::ext_equal]
pub enum FrameView {
    Message { message_id: Seq<char>, sender_display_name: Seq<char>, message: MessageView },
    Ack { message_id: Seq<char> },
}

impl View for ChatFrame {
    type V = FrameView;

    open spec fn view(&self) -> FrameView {
        match *self {
            ChatFrame::Message { message_id, sender_display_name, message } => FrameView::Message {
                message_id: message_id@,
                sender_display_name: sender_display_name@,
                message: message@,
            },
            ChatFrame::Ack { message_id } => FrameView::Ack { message_id: message_id@ },
        }
    }
}

/// The fields of a message in a chat.
pub type ChatMessageWire = (String, (String, RatchetMessage));

impl FrameView {
    /// The number that tells the kinds of frames apart.
    pub open spec fn tag(self) -> u32 {
        match self {
            FrameView::Message { .. } => 0,
            FrameView::Ack { .. } => 1,
        }
    }

    /// The binary form of what the frame carries.
    pub open spec fn fields(self) -> Seq<u8> {
        match self {
            FrameView::Message { message_id, sender_display_name, message } =>
                <ChatMessageWire as Wire>::encoded((message_id, (sender_display_name, message))),
            FrameView::Ack { message_id } => <String as Wire>::encoded(message_id),
        }
    }
}

impl Wire for ChatFrame {
    open spec fn valid(contents: FrameView) -> bool {
        contents matches FrameView::Message { message, .. } ==> RatchetMessage::valid(message)
    }

    open spec fn encoded(contents: FrameView) -> Seq<u8> {
        le_bytes(contents.tag() as nat, 4) + contents.fields()
    }

    proof fn contents_are_valid(&self) {
        match *self {
            ChatFrame::Message { message, .. } => {
                message.contents_are_valid();
            },
            ChatFrame::Ack { .. } => {},
        }
    }

    proof fn begins_with_one(bytes: Seq<u8>, a: FrameView, b: FrameView) {
        lemma_begins_with_parts(bytes, le_bytes(a.tag() as nat, 4), a.fields());
        lemma_begins_with_parts(bytes, le_bytes(b.tag() as nat, 4), b.fields());
        lemma_fits(a.tag() as nat);
        lemma_fits(b.tag() as nat);
        lemma_number_is_read_back(bytes, a.tag() as nat, b.tag() as nat, 4);
        match (a, b) {
            (
                FrameView::Message { message_id, sender_display_name, message },
                FrameView::Message { message_id: i, sender_display_name: s, message: m },
            ) => {
                <ChatMessageWire as Wire>::begins_with_one(
                    bytes.skip(4),
                    (message_id, (sender_display_name, message)),
                    (i, (s, m)),
                );
            },
            (FrameView::Ack { message_id }, FrameView::Ack { message_id: i }) => {
                <String as Wire>::begins_with_one(bytes.skip(4), message_id, i);
            },
            _ => {},
        }
    }

    fn write(&self, bytes: &mut Vec<u8>) {
        match self {
            ChatFrame::Message { message_id, sender_display_name, message } => {
                write_tag(0, bytes);
                message_id.write(bytes);
                sender_display_name.write(bytes);
                message.write(bytes);
            },
            ChatFrame::Ack { message_id } => {
                write_tag(1, bytes);
                message_id.write(bytes);
            },
        }
        assert(bytes@ =~= old(bytes)@ + Self::encoded(self@));
    }

    fn read(bytes: &[u8], at: usize) -> (read: Option<(ChatFrame, usize)>) {
        let ghost rest = bytes@.skip(at as int);
        let len: usize = bytes.len();
        let tag: u32 = match read_tag(bytes, at) {
            Some(tag) => tag,
            None => {
                return None;
            },
        };
        assert(bytes@.skip(at + 4) =~= rest.skip(4));
        proof {
            assert forall|contents: FrameView|
                begins_with(rest, #[trigger] Self::encoded(contents)) implies contents.tag() == tag
                && begins_with(rest.skip(4), contents.fields()) by {
                lemma_begins_with_parts(
                    rest,
                    le_bytes(contents.tag() as nat, 4),
                    contents.fields(),
                );
                lemma_fits(contents.tag() as nat);
                lemma_fits(tag as nat);
                lemma_number_is_read_back(rest, contents.tag() as nat, tag as nat, 4);
            }
        }
        if tag == 0 {
            match <ChatMessageWire as Wire>::read(bytes, at + 4) {
                Some(((message_id, (sender_display_name, message)), next)) => {
                    let frame = ChatFrame::Message { message_id, sender_display_name, message };
                    proof {
                        lemma_begins_with_parts(rest, le_bytes(0, 4), frame@.fields());
                    }
                    Some((frame, next))
                },
                None => {
                    proof {
                        assert forall|contents: FrameView|
                            Self::valid(contents) implies !begins_with(
                            rest,
                            #[trigger] Self::encoded(contents),
                        ) by {
                            if let FrameView::Message { message_id, sender_display_name, message } =
                                contents {
                                assert(<ChatMessageWire as Wire>::valid(
                                    (message_id, (sender_display_name, message)),
                                ));
                            }
                        }
                    }
                    None
                },
            }
        } else if tag == 1 {
            match <String as Wire>::read(bytes, at + 4) {
                Some((message_id, next)) => {
                    let frame = ChatFrame::Ack { message_id };
                    proof {
                        lemma_begins_with_parts(rest, le_bytes(1, 4), frame@.fields());
                    }
                    Some((frame, next))
                },
                None => {
                    proof {
                        assert forall|contents: FrameView|
                            Self::valid(contents) implies !begins_with(
                            rest,
                            #[trigger] Self::encoded(contents),
                        ) by {
                            if let FrameView::Ack { message_id } = contents {
                                assert(<String as Wire>::valid(message_id));
                            }
                        }
                    }
                    None
                },
            }
        } else {
            None
        }
    }
}

/// The named bundle that bytes stand for: with a name or, as older clients send it, bare.
pub open spec fn chat_bundle_of(bytes: Seq<u8>) -> Option<ChatBundleView> {
    match decoding::<ChatPreKeyBundle>(bytes) {
        Some(named) => Some(
            ChatBundleView {
                sender_display_name: shown_name(named.sender_display_name),
                bundle: named.bundle,
            },
        ),
        None => match decoding::<PreKeyBundle>(bytes) {
            Some(bundle) => Some(ChatBundleView { sender_display_name: "Anonymous"@, bundle }),
            None => None,
        },
    }
}

/// The named first message that bytes stand for: with name and identity or, as older
/// clients send it, with a name only or bare.
pub open spec fn chat_initial_of(bytes: Seq<u8>) -> Option<ChatInitialView> {
    match decoding::<ChatInitialMessage>(bytes) {
        Some(named) => Some(
            ChatInitialView { sender_display_name: shown_name(named.sender_display_name), ..named },
        ),
        None => match decoding::<LegacyChatInitialMessage>(bytes) {
            Some(named) => Some(
                ChatInitialView {
                    sender_display_name: shown_name(named.sender_display_name),
                    sender_identity_public_key: None,
                    message: named.message,
                },
            ),
            None => match decoding::<InitialMessage>(bytes) {
                Some(message) => Some(
                    ChatInitialView {
                        sender_display_name: "Anonymous"@,
                        sender_identity_public_key: None,
                        message,
                    },
                ),
                None => None,
            },
        },
    }
}

/// Reads a bundle with the name of its sender.
pub fn decode_chat_prekey_bundle(bytes: &[u8]) -> (named: Option<(String, PreKeyBundle)>)
    ensures
        match named {
            Some((name, bundle)) => chat_bundle_of(bytes@) == Some(
                ChatBundleView { sender_display_name: name@, bundle: bundle@ },
            ),
            None => chat_bundle_of(bytes@) is None,
        },
{
    match decode::<ChatPreKeyBundle>(bytes) {
        Some(named) => Some(
            (display_name_or_anonymous(named.sender_display_name.as_str()), named.bundle),
        ),
        None => match decode::<PreKeyBundle>(bytes) {
            Some(bundle) => Some((copy_text("Anonymous"), bundle)),
            None => None,
        },
    }
}

/// Reads a first message with the name and the identity of its sender, as far as they
/// are given.
pub fn decode_chat_initial_message(bytes: &[u8]) -> (named: Option<ChatInitialMessage>)
    ensures
        match named {
            Some(named) => chat_initial_of(bytes@) == Some(named@),
            None => chat_initial_of(bytes@) is None,
        },
{
    match decode::<ChatInitialMessage>(bytes) {
        Some(named) => Some(
            ChatInitialMessage {
                sender_display_name: display_name_or_anonymous(named.sender_display_name.as_str()),
                sender_identity_public_key: named.sender_identity_public_key,
                message: named.message,
            },
        ),
        None => match decode::<LegacyChatInitialMessage>(bytes) {
            Some(named) => Some(
                ChatInitialMessage {
                    sender_display_name: display_name_or_anonymous(
                        named.sender_display_name.as_str(),
                    ),
                    sender_identity_public_key: None,
                    message: named.message,
                },
            ),
            None => match decode::<InitialMessage>(bytes) {
                Some(message) => Some(
                    ChatInitialMessage {
                        sender_display_name: copy_text("Anonymous"),
                        sender_identity_public_key: None,
                        message,
                    },
                ),
                None => None,
            },
        },
    }
}

/// The key exchange that a rendezvous payload holds in hexadecimal.
pub fn bob_exchange_from_payload(payload_hex: &str) -> (exchange: Result<
    SignedKeyExchange,
    PayloadError,
>)
    ensures
        match exchange {
            Ok(exchange) => unhex(utf8(payload_hex@)) is Ok && decoding::<SignedKeyExchange>(
                unhex(utf8(payload_hex@))->Ok_0,
            ) == Some(exchange@),
            Err(PayloadError::Hex(error)) => unhex(utf8(payload_hex@)) == Err::<
                Seq<u8>,
                HexError,
            >(error),
            Err(PayloadError::Malformed) => unhex(utf8(payload_hex@)) is Ok && decoding::<
                SignedKeyExchange,
            >(unhex(utf8(payload_hex@))->Ok_0) is None,
        },
{
    match hex_decode(payload_hex) {
        Err(error) => Err(PayloadError::Hex(error)),
        Ok(payload) => match decode::<SignedKeyExchange>(payload.as_slice()) {
            Some(exchange) => Ok(exchange),
            None => Err(PayloadError::Malformed),
        },
    }
}

/// Why a rendezvous payload holds no key exchange.
#[derive(Debug, Clone, Copy, PartialEq, Eq, Structural)]
pub enum PayloadError {
    Hex(HexError),
    Malformed,
}

/// The name that came with a bundle or a first message is shown as every name is.
pub proof fn law_received_names_are_shown(bytes: Seq<u8>)
    ensures
        chat_bundle_of(bytes) matches Some(named) ==> 0 < named.sender_display_name.len() <= 64,
        chat_initial_of(bytes) matches Some(named) ==> 0 < named.sender_display_name.len() <= 64,
{
    reveal_strlit("Anonymous");
    if let Some(named) = decoding::<ChatPreKeyBundle>(bytes) {
        law_shown_name_is_not_blank(named.sender_display_name);
    }
    if let Some(named) = decoding::<ChatInitialMessage>(bytes) {
        law_shown_name_is_not_blank(named.sender_display_name);
    }
    if let Some(named) = decoding::<LegacyChatInitialMessage>(bytes) {
        law_shown_name_is_not_blank(named.sender_display_name);
    }
}

} // verus!
