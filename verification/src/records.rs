//! The records that the messenger keeps.

use crate::bytes::{copy_bytes, same_text};
use crate::sorted::{option_view, Record};
use vstd::prelude::*;

verus! {

/// Whether a message was sent or received.
#[derive(Debug, Clone, Copy, PartialEq, Eq, Structural)]
pub enum MessageDirection {
    Sent,
    Received,
}

/// How far a message of the history has come.
#[derive(Debug, Clone, Copy, PartialEq, Eq, Structural)]
pub enum MessageStatus {
    Stored,
    Sent,
    Received,
}

/// Whether the receipt of an outbox item was confirmed.
#[derive(Debug, Clone, Copy, PartialEq, Eq, Structural)]
pub enum OutboxStatus {
    Pending,
    Delivered,
}

impl MessageDirection {
    /// The stored name.
    pub open spec fn name(self) -> Seq<char> {
        match self {
            MessageDirection::Sent => "sent"@,
            MessageDirection::Received => "received"@,
        }
    }

    pub fn as_str(&self) -> (name: &'static str)
        ensures
            name@ == self.name(),
    {
        match self {
            MessageDirection::Sent => "sent",
            MessageDirection::Received => "received",
        }
    }

    /// The direction with a stored name; any unknown name counts as sent.
    pub fn from_str(value: &str) -> (direction: MessageDirection)
        ensures
            direction == if value@ == MessageDirection::Received.name() {
                MessageDirection::Received
            } else {
                MessageDirection::Sent
            },
    {
        if same_text(value, "received") {
            MessageDirection::Received
        } else {
            MessageDirection::Sent
        }
    }
}

impl MessageStatus {
    /// The stored name.
    pub open spec fn name(self) -> Seq<char> {
        match self {
            MessageStatus::Stored => "stored"@,
            MessageStatus::Sent => "sent"@,
            MessageStatus::Received => "received"@,
        }
    }

    pub fn as_str(&self) -> (name: &'static str)
        ensures
            name@ == self.name(),
    {
        match self {
            MessageStatus::Stored => "stored",
            MessageStatus::Sent => "sent",
            MessageStatus::Received => "received",
        }
    }

    /// The status with a stored name; any unknown name counts as stored.
    pub fn from_str(value: &str) -> (status: MessageStatus)
        ensures
            status == if value@ == MessageStatus::Sent.name() {
                MessageStatus::Sent
            } else if value@ == MessageStatus::Received.name() {
                MessageStatus::Received
            } else {
                MessageStatus::Stored
            },
    {
        if same_text(value, "sent") {
            MessageStatus::Sent
        } else if same_text(value, "received") {
            MessageStatus::Received
        } else {
            MessageStatus::Stored
        }
    }
}

impl OutboxStatus {
    /// The stored name.
    pub open spec fn name(self) -> Seq<char> {
        match self {
            OutboxStatus::Pending => "pending"@,
            OutboxStatus::Delivered => "delivered"@,
        }
    }

    pub fn as_str(&self) -> (name: &'static str)
        ensures
            name@ == self.name(),
    {
        match self {
            OutboxStatus::Pending => "pending",
            OutboxStatus::Delivered => "delivered",
        }
    }

    /// The status with a stored name; any unknown name counts as pending.
    pub fn from_str(value: &str) -> (status: OutboxStatus)
        ensures
            status == if value@ == OutboxStatus::Delivered.name() {
                OutboxStatus::Delivered
            } else {
                OutboxStatus::Pending
            },
    {
        if same_text(value, "delivered") {
            OutboxStatus::Delivered
        } else {
            OutboxStatus::Pending
        }
    }
}

/// Every direction is read back from its stored name.
pub proof fn law_direction_name_is_read_back(direction: MessageDirection)
    ensures
        direction.name() == MessageDirection::Received.name() <==> direction
            == MessageDirection::Received,
{
    reveal_strlit("sent");
    reveal_strlit("received");
    assert("sent"@.len() != "received"@.len());
}

/// Every message status is read back from its stored name.
pub proof fn law_status_name_is_read_back(status: MessageStatus)
    ensures
        status.name() == MessageStatus::Sent.name() <==> status == MessageStatus::Sent,
        status.name() == MessageStatus::Received.name() <==> status == MessageStatus::Received,
{
    reveal_strlit("stored");
    reveal_strlit("sent");
    reveal_strlit("received");
    assert("sent"@.len() != "received"@.len());
    assert("stored"@.len() != "received"@.len());
    assert("stored"@.len() != "sent"@.len());
}

/// Every outbox status is read back from its stored name.
pub proof fn law_outbox_name_is_read_back(status: OutboxStatus)
    ensures
        status.name() == OutboxStatus::Delivered.name() <==> status == OutboxStatus::Delivered,
{
    reveal_strlit("pending");
    reveal_strlit("delivered");
    assert("pending"@.len() != "delivered"@.len());
}

/// A copy of an optional text.
pub fn copy_option_text(text: &Option<String>) -> (copy: Option<String>)
    ensures
        option_view(copy) == option_view(*text),
{
    match text {
        Some(text) => Some(text.clone()),
        None => None,
    }
}

/// A copy of an optional byte string.
pub fn copy_option_bytes(bytes: &Option<Vec<u8>>) -> (copy: Option<Vec<u8>>)
    ensures
        option_view(copy) == option_view(*bytes),
{
    match bytes {
        Some(bytes) => Some(copy_bytes(bytes.as_slice())),
        None => None,
    }
}

/// One message of the local history.
#[derive(Debug, Clone, PartialEq, Eq)]
pub struct MessageRecord {
    pub message_id: String,
    pub conversation_id: String,
    pub sender_id: String,
    pub recipient_id: String,
    pub direction: MessageDirection,
    pub status: MessageStatus,
    pub protocol_counter: Option<u64>,
    pub ciphertext: Vec<u8>,
    pub plaintext: Option<String>,
    pub created_at_unix_secs: u64,
}

/// The contents of a `MessageRecord`.
#[verifier::ext_equal]
pub struct MessageRow {
    pub message_id: Seq<char>,
    pub conversation_id: Seq<char>,
    pub sender_id: Seq<char>,
    pub recipient_id: Seq<char>,
    pub direction: MessageDirection,
    pub status: MessageStatus,
    pub protocol_counter: Option<u64>,
    pub ciphertext: Seq<u8>,
    pub plaintext: Option<Seq<char>>,
    pub created_at_unix_secs: u64,
}

impl View for MessageRecord {
    type V = MessageRow;

    open spec fn view(&self) -> MessageRow {
        MessageRow {
            message_id: self.message_id@,
            conversation_id: self.conversation_id@,
            sender_id: self.sender_id@,
            recipient_id: self.recipient_id@,
            direction: self.direction,
            status: self.status,
            protocol_counter: self.protocol_counter,
            ciphertext: self.ciphertext@,
            plaintext: option_view(self.plaintext),
            created_at_unix_secs: self.created_at_unix_secs,
        }
    }
}

impl Record for MessageRecord {
    fn duplicate(&self) -> (copy: MessageRecord) {
        MessageRecord {
            message_id: self.message_id.clone(),
            conversation_id: self.conversation_id.clone(),
            sender_id: self.sender_id.clone(),
            recipient_id: self.recipient_id.clone(),
            direction: self.direction,
            status: self.status,
            protocol_counter: self.protocol_counter,
            ciphertext: copy_bytes(self.ciphertext.as_slice()),
            plaintext: copy_option_text(&self.plaintext),
            created_at_unix_secs: self.created_at_unix_secs,
        }
    }
}

/// An encrypted payload that waits until its receipt is confirmed.
#[derive(Debug, Clone, PartialEq, Eq)]
pub struct OutboxItem {
    pub message_id: String,
    pub recipient_id: String,
    pub payload: Vec<u8>,
    pub status: OutboxStatus,
    pub retry_count: u64,
    pub created_at_unix_secs: u64,
    pub last_attempt_unix_secs: Option<u64>,
}

/// The contents of an `OutboxItem`.
#[verifier::ext_equal]
pub struct OutboxRow {
    pub message_id: Seq<char>,
    pub recipient_id: Seq<char>,
    pub payload: Seq<u8>,
    pub status: OutboxStatus,
    pub retry_count: u64,
    pub created_at_unix_secs: u64,
    pub last_attempt_unix_secs: Option<u64>,
}

impl View for OutboxItem {
    type V = OutboxRow;

    open spec fn view(&self) -> OutboxRow {
        OutboxRow {
            message_id: self.message_id@,
            recipient_id: self.recipient_id@,
            payload: self.payload@,
            status: self.status,
            retry_count: self.retry_count,
            created_at_unix_secs: self.created_at_unix_secs,
            last_attempt_unix_secs: self.last_attempt_unix_secs,
        }
    }
}

impl Record for OutboxItem {
    fn duplicate(&self) -> (copy: OutboxItem) {
        OutboxItem {
            message_id: self.message_id.clone(),
            recipient_id: self.recipient_id.clone(),
            payload: copy_bytes(self.payload.as_slice()),
            status: self.status,
            retry_count: self.retry_count,
            created_at_unix_secs: self.created_at_unix_secs,
            last_attempt_unix_secs: self.last_attempt_unix_secs,
        }
    }
}

/// One event of a conversation, numbered by the device that made it.
#[derive(Debug, Clone, PartialEq, Eq)]
pub struct EventRecord {
    pub device_id: String,
    pub counter: u64,
    pub conversation_id: String,
    pub event_type: String,
    pub message_id: Option<String>,
    pub payload: Vec<u8>,
    pub created_at_unix_secs: u64,
}

/// The contents of an `EventRecord`.
#[verifier::ext_equal]
pub struct EventRow {
    pub device_id: Seq<char>,
    pub counter: u64,
    pub conversation_id: Seq<char>,
    pub event_type: Seq<char>,
    pub message_id: Option<Seq<char>>,
    pub payload: Seq<u8>,
    pub created_at_unix_secs: u64,
}

impl View for EventRecord {
    type V = EventRow;

    open spec fn view(&self) -> EventRow {
        EventRow {
            device_id: self.device_id@,
            counter: self.counter,
            conversation_id: self.conversation_id@,
            event_type: self.event_type@,
            message_id: option_view(self.message_id),
            payload: self.payload@,
            created_at_unix_secs: self.created_at_unix_secs,
        }
    }
}

impl Record for EventRecord {
    fn duplicate(&self) -> (copy: EventRecord) {
        EventRecord {
            device_id: self.device_id.clone(),
            counter: self.counter,
            conversation_id: self.conversation_id.clone(),
            event_type: self.event_type.clone(),
            message_id: copy_option_text(&self.message_id),
            payload: copy_bytes(self.payload.as_slice()),
            created_at_unix_secs: self.created_at_unix_secs,
        }
    }
}

/// A peer that the user has talked to.
#[derive(Debug, Clone, PartialEq, Eq)]
pub struct ContactRecord {
    pub contact_id: String,
    pub display_name: String,
    pub identity_public_key: Vec<u8>,
    pub discovery_hint: String,
    pub saved_at_unix_secs: u64,
}

/// The contents of a `ContactRecord`.
#[verifier::ext_equal]
pub struct ContactRow {
    pub contact_id: Seq<char>,
    pub display_name: Seq<char>,
    pub identity_public_key: Seq<u8>,
    pub discovery_hint: Seq<char>,
    pub saved_at_unix_secs: u64,
}

impl View for ContactRecord {
    type V = ContactRow;

    open spec fn view(&self) -> ContactRow {
        ContactRow {
            contact_id: self.contact_id@,
            display_name: self.display_name@,
            identity_public_key: self.identity_public_key@,
            discovery_hint: self.discovery_hint@,
            saved_at_unix_secs: self.saved_at_unix_secs,
        }
    }
}

impl Record for ContactRecord {
    fn duplicate(&self) -> (copy: ContactRecord) {
        ContactRecord {
            contact_id: self.contact_id.clone(),
            display_name: self.display_name.clone(),
            identity_public_key: copy_bytes(self.identity_public_key.as_slice()),
            discovery_hint: self.discovery_hint.clone(),
            saved_at_unix_secs: self.saved_at_unix_secs,
        }
    }
}

/// An invite, stored by the hash of its code.
#[derive(Debug, Clone, PartialEq, Eq)]
pub struct InviteRecord {
    pub code_hash: String,
    pub rendezvous_payload: String,
    pub expires_at_unix_secs: u64,
    pub consumed_at_unix_secs: Option<u64>,
    pub created_at_unix_secs: u64,
}

/// The contents of an `InviteRecord`.
#[verifier::ext_equal]
pub struct InviteRow {
    pub code_hash: Seq<char>,
    pub rendezvous_payload: Seq<char>,
    pub expires_at_unix_secs: u64,
    pub consumed_at_unix_secs: Option<u64>,
    pub created_at_unix_secs: u64,
}

impl View for InviteRecord {
    type V = InviteRow;

    open spec fn view(&self) -> InviteRow {
        InviteRow {
            code_hash: self.code_hash@,
            rendezvous_payload: self.rendezvous_payload@,
            expires_at_unix_secs: self.expires_at_unix_secs,
            consumed_at_unix_secs: self.consumed_at_unix_secs,
            created_at_unix_secs: self.created_at_unix_secs,
        }
    }
}

impl Record for InviteRecord {
    fn duplicate(&self) -> (copy: InviteRecord) {
        InviteRecord {
            code_hash: self.code_hash.clone(),
            rendezvous_payload: self.rendezvous_payload.clone(),
            expires_at_unix_secs: self.expires_at_unix_secs,
            consumed_at_unix_secs: self.consumed_at_unix_secs,
            created_at_unix_secs: self.created_at_unix_secs,
        }
    }
}

/// The stored state of a local party.
#[derive(Debug, Clone, PartialEq, Eq)]
pub struct LocalIdentityRecord {
    pub role: String,
    pub state: Vec<u8>,
    pub updated_at_unix_secs: u64,
}

/// The contents of a `LocalIdentityRecord`.
#[verifier::ext_equal]
pub struct LocalIdentityRow {
    pub role: Seq<char>,
    pub state: Seq<u8>,
    pub updated_at_unix_secs: u64,
}

impl View for LocalIdentityRecord {
    type V = LocalIdentityRow;

    open spec fn view(&self) -> LocalIdentityRow {
        LocalIdentityRow {
            role: self.role@,
            state: self.state@,
            updated_at_unix_secs: self.updated_at_unix_secs,
        }
    }
}

impl Record for LocalIdentityRecord {
    fn duplicate(&self) -> (copy: LocalIdentityRecord) {
        LocalIdentityRecord {
            role: self.role.clone(),
            state: copy_bytes(self.state.as_slice()),
            updated_at_unix_secs: self.updated_at_unix_secs,
        }
    }
}

/// The value of a local setting.
#[derive(Debug, Clone, PartialEq, Eq)]
pub struct SettingRecord {
    pub value: String,
    pub updated_at_unix_secs: u64,
}

/// The contents of a `SettingRecord`.
#[verifier::ext_equal]
pub struct SettingRow {
    pub value: Seq<char>,
    pub updated_at_unix_secs: u64,
}

impl View for SettingRecord {
    type V = SettingRow;

    open spec fn view(&self) -> SettingRow {
        SettingRow {
            value: self.value@,
            updated_at_unix_secs: self.updated_at_unix_secs,
        }
    }
}

impl Record for SettingRecord {
    fn duplicate(&self) -> (copy: SettingRecord) {
        SettingRecord {
            value: self.value.clone(),
            updated_at_unix_secs: self.updated_at_unix_secs,
        }
    }
}

/// The stored state of a conversation's session.
#[derive(Debug, Clone, PartialEq, Eq)]
pub struct SessionRecord {
    pub peer_id: String,
    pub role: String,
    pub state: Vec<u8>,
    pub updated_at_unix_secs: u64,
}

/// The contents of a `SessionRecord`.
#[verifier::ext_equal]
pub struct SessionRow {
    pub peer_id: Seq<char>,
    pub role: Seq<char>,
    pub state: Seq<u8>,
    pub updated_at_unix_secs: u64,
}

impl View for SessionRecord {
    type V = SessionRow;

    open spec fn view(&self) -> SessionRow {
        SessionRow {
            peer_id: self.peer_id@,
            role: self.role@,
            state: self.state@,
            updated_at_unix_secs: self.updated_at_unix_secs,
        }
    }
}

impl Record for SessionRecord {
    fn duplicate(&self) -> (copy: SessionRecord) {
        SessionRecord {
            peer_id: self.peer_id.clone(),
            role: self.role.clone(),
            state: copy_bytes(self.state.as_slice()),
            updated_at_unix_secs: self.updated_at_unix_secs,
        }
    }
}

/// The stored state of a session between two devices.
#[derive(Debug, Clone, PartialEq, Eq)]
pub struct PairSessionRecord {
    pub state: Vec<u8>,
    pub updated_at_unix_secs: u64,
}

/// The contents of a `PairSessionRecord`.
#[verifier::ext_equal]
pub struct PairSessionRow {
    pub state: Seq<u8>,
    pub updated_at_unix_secs: u64,
}

impl View for PairSessionRecord {
    type V = PairSessionRow;

    open spec fn view(&self) -> PairSessionRow {
        PairSessionRow {
            state: self.state@,
            updated_at_unix_secs: self.updated_at_unix_secs,
        }
    }
}

impl Record for PairSessionRecord {
    fn duplicate(&self) -> (copy: PairSessionRecord) {
        PairSessionRecord {
            state: copy_bytes(self.state.as_slice()),
            updated_at_unix_secs: self.updated_at_unix_secs,
        }
    }
}

/// A known account, with its secret key where it is the user's own.
#[derive(Debug, Clone, PartialEq, Eq)]
pub struct AccountRecord {
    pub account_public_key: Vec<u8>,
    pub account_secret_key: Option<Vec<u8>>,
    pub updated_at_unix_secs: u64,
}

/// The contents of an `AccountRecord`.
#[verifier::ext_equal]
pub struct AccountRow {
    pub account_public_key: Seq<u8>,
    pub account_secret_key: Option<Seq<u8>>,
    pub updated_at_unix_secs: u64,
}

impl View for AccountRecord {
    type V = AccountRow;

    open spec fn view(&self) -> AccountRow {
        AccountRow {
            account_public_key: self.account_public_key@,
            account_secret_key: option_view(self.account_secret_key),
            updated_at_unix_secs: self.updated_at_unix_secs,
        }
    }
}

impl Record for AccountRecord {
    fn duplicate(&self) -> (copy: AccountRecord) {
        AccountRecord {
            account_public_key: copy_bytes(self.account_public_key.as_slice()),
            account_secret_key: copy_option_bytes(&self.account_secret_key),
            updated_at_unix_secs: self.updated_at_unix_secs,
        }
    }
}

/// A local device with its keys.
#[derive(Debug, Clone, PartialEq, Eq)]
pub struct DeviceRecord {
    pub account_id: String,
    pub device_ed25519_public_key: Vec<u8>,
    pub device_ed25519_secret_key: Vec<u8>,
    pub device_x25519_public_key: Vec<u8>,
    pub device_x25519_private_key: Vec<u8>,
    pub updated_at_unix_secs: u64,
}

/// The contents of a `DeviceRecord`.
#[verifier::ext_equal]
pub struct DeviceRow {
    pub account_id: Seq<char>,
    pub device_ed25519_public_key: Seq<u8>,
    pub device_ed25519_secret_key: Seq<u8>,
    pub device_x25519_public_key: Seq<u8>,
    pub device_x25519_private_key: Seq<u8>,
    pub updated_at_unix_secs: u64,
}

impl View for DeviceRecord {
    type V = DeviceRow;

    open spec fn view(&self) -> DeviceRow {
        DeviceRow {
            account_id: self.account_id@,
            device_ed25519_public_key: self.device_ed25519_public_key@,
            device_ed25519_secret_key: self.device_ed25519_secret_key@,
            device_x25519_public_key: self.device_x25519_public_key@,
            device_x25519_private_key: self.device_x25519_private_key@,
            updated_at_unix_secs: self.updated_at_unix_secs,
        }
    }
}

impl Record for DeviceRecord {
    fn duplicate(&self) -> (copy: DeviceRecord) {
        DeviceRecord {
            account_id: self.account_id.clone(),
            device_ed25519_public_key: copy_bytes(self.device_ed25519_public_key.as_slice()),
            device_ed25519_secret_key: copy_bytes(self.device_ed25519_secret_key.as_slice()),
            device_x25519_public_key: copy_bytes(self.device_x25519_public_key.as_slice()),
            device_x25519_private_key: copy_bytes(self.device_x25519_private_key.as_slice()),
            updated_at_unix_secs: self.updated_at_unix_secs,
        }
    }
}

/// A stored device certificate.
#[derive(Debug, Clone, PartialEq, Eq)]
pub struct CertificateRecord {
    pub account_id: String,
    pub device_id: String,
    pub certificate: Vec<u8>,
    pub updated_at_unix_secs: u64,
}

/// The contents of a `CertificateRecord`.
#[verifier::ext_equal]
pub struct CertificateRow {
    pub account_id: Seq<char>,
    pub device_id: Seq<char>,
    pub certificate: Seq<u8>,
    pub updated_at_unix_secs: u64,
}

impl View for CertificateRecord {
    type V = CertificateRow;

    open spec fn view(&self) -> CertificateRow {
        CertificateRow {
            account_id: self.account_id@,
            device_id: self.device_id@,
            certificate: self.certificate@,
            updated_at_unix_secs: self.updated_at_unix_secs,
        }
    }
}

impl Record for CertificateRecord {
    fn duplicate(&self) -> (copy: CertificateRecord) {
        CertificateRecord {
            account_id: self.account_id.clone(),
            device_id: self.device_id.clone(),
            certificate: copy_bytes(self.certificate.as_slice()),
            updated_at_unix_secs: self.updated_at_unix_secs,
        }
    }
}

/// A stored device revocation.
#[derive(Debug, Clone, PartialEq, Eq)]
pub struct RevocationRecord {
    pub account_id: String,
    pub device_id: String,
    pub revocation_counter: u64,
    pub revocation: Vec<u8>,
    pub updated_at_unix_secs: u64,
}

/// The contents of a `RevocationRecord`.
#[verifier::ext_equal]
pub struct RevocationRow {
    pub account_id: Seq<char>,
    pub device_id: Seq<char>,
    pub revocation_counter: u64,
    pub revocation: Seq<u8>,
    pub updated_at_unix_secs: u64,
}

impl View for RevocationRecord {
    type V = RevocationRow;

    open spec fn view(&self) -> RevocationRow {
        RevocationRow {
            account_id: self.account_id@,
            device_id: self.device_id@,
            revocation_counter: self.revocation_counter,
            revocation: self.revocation@,
            updated_at_unix_secs: self.updated_at_unix_secs,
        }
    }
}

impl Record for RevocationRecord {
    fn duplicate(&self) -> (copy: RevocationRecord) {
        RevocationRecord {
            account_id: self.account_id.clone(),
            device_id: self.device_id.clone(),
            revocation_counter: self.revocation_counter,
            revocation: copy_bytes(self.revocation.as_slice()),
            updated_at_unix_secs: self.updated_at_unix_secs,
        }
    }
}

/// An encrypted envelope as it is deposited and fetched.
#[derive(Debug, Clone, PartialEq, Eq)]
pub struct MailboxEnvelopeRecord {
    pub message_id: String,
    pub recipient_token: String,
    pub encrypted_payload: Vec<u8>,
    pub created_at_unix_secs: u64,
    pub expires_at_unix_secs: Option<u64>,
}

/// The contents of a `MailboxEnvelopeRecord`.
#[verifier::ext_equal]
pub struct EnvelopeRow {
    pub message_id: Seq<char>,
    pub recipient_token: Seq<char>,
    pub encrypted_payload: Seq<u8>,
    pub created_at_unix_secs: u64,
    pub expires_at_unix_secs: Option<u64>,
}

impl View for MailboxEnvelopeRecord {
    type V = EnvelopeRow;

    open spec fn view(&self) -> EnvelopeRow {
        EnvelopeRow {
            message_id: self.message_id@,
            recipient_token: self.recipient_token@,
            encrypted_payload: self.encrypted_payload@,
            created_at_unix_secs: self.created_at_unix_secs,
            expires_at_unix_secs: self.expires_at_unix_secs,
        }
    }
}

impl Record for MailboxEnvelopeRecord {
    fn duplicate(&self) -> (copy: MailboxEnvelopeRecord) {
        MailboxEnvelopeRecord {
            message_id: self.message_id.clone(),
            recipient_token: self.recipient_token.clone(),
            encrypted_payload: copy_bytes(self.encrypted_payload.as_slice()),
            created_at_unix_secs: self.created_at_unix_secs,
            expires_at_unix_secs: self.expires_at_unix_secs,
        }
    }
}

} // verus!
