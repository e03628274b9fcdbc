//! What a chat shows and how it names things: display names, previews, ages, ids.

use crate::bytes::{append_bytes, be_bytes, copy_text, hex, hex_encode, same_text, to_be_bytes, utf8};
use crate::primitives::{random_bytes, sha256, sha256_digest};
use crate::records::{MessageDirection, MessageRow, MessageStatus};
use crate::storage::{now_unix_secs, ChatSummary};
use crate::text::{
    decimal, first_chars, joined, lower, same_ignoring_ascii_case, take_chars, to_decimal, trim,
    trimmed,
};
use vstd::prelude::*;
use vstd::slice::slice_subrange;

verus! {

pub const CHAT_PROMPT: &'static str = "> ";

pub const CHAT_INPUT_INSTRUCTION: &'static str =
    "Type a message, or /back to return to Messages.";

pub const LOCAL_HISTORY_CONTEXT: &'static str = "ciphermesh.local-history.v1";

pub const PENDING_MESSAGE_CONTEXT: &'static str = "ciphermesh.pending-peer-message.v1";

pub const DISPLAY_CONTACT_CONTEXT: &'static str = "ciphermesh.display-contact.v1";

/// The longest display name shown.
pub const DISPLAY_NAME_LIMIT: usize = 64;

/// The longest part of a message shown in a preview.
pub const PREVIEW_LIMIT: usize = 48;

/// The name under which a user with this display name is shown.
pub open spec fn shown_name(name: Seq<char>) -> Seq<char> {
    if trimmed(name).len() == 0 {
        "Anonymous"@
    } else {
        first_chars(trimmed(name), DISPLAY_NAME_LIMIT as nat)
    }
}

/// A text up to a limit, with an ellipsis in place of the rest.
pub open spec fn preview_of(text: Seq<char>, limit: nat) -> Seq<char> {
    if text.len() > limit {
        first_chars(text, limit) + "..."@
    } else {
        text
    }
}

/// How long ago something was, in words.
pub open spec fn age_in_words(age: nat) -> Seq<char> {
    if age < 60 {
        "just now"@
    } else if age < 120 {
        "1 min ago"@
    } else if age < 3600 {
        decimal(age / 60) + " min ago"@
    } else if age < 7200 {
        "1 hour ago"@
    } else if age < 86400 {
        decimal(age / 3600) + " hours ago"@
    } else if age < 172800 {
        "yesterday"@
    } else {
        decimal(age / 86400) + " days ago"@
    }
}

/// The age of a point in time; what lies ahead is of no age.
pub open spec fn age_at(timestamp: u64, now: u64) -> nat {
    if timestamp >= now {
        0
    } else {
        (now - timestamp) as nat
    }
}

/// What is shown of a message in a list of chats.
pub open spec fn message_preview(message: MessageRow) -> Seq<char> {
    let body = match message.plaintext {
        Some(plaintext) => trimmed(plaintext),
        None => trimmed("[encrypted]"@),
    };
    let shown = if body.len() == 0 {
        "[empty message]"@
    } else {
        body
    };
    if message.direction == MessageDirection::Sent {
        "you: "@ + shown
    } else {
        shown
    }
}

/// The line shown under a contact in a list of chats.
pub open spec fn preview_line(
    last_message: Option<MessageRow>,
    pending_count: u64,
    now: u64,
) -> Seq<char> {
    if pending_count == 1 {
        "Offline · "@ + "1 pending message"@
    } else if pending_count > 1 {
        "Offline · "@ + decimal(pending_count as nat) + " pending messages"@
    } else {
        match last_message {
            Some(message) => "Offline · last message: "@ + preview_of(
                message_preview(message),
                PREVIEW_LIMIT as nat,
            ) + " · "@ + age_in_words(age_at(message.created_at_unix_secs, now)),
            None => "Offline · No messages"@,
        }
    }
}

/// What is hashed into the id of a message of the history.
pub open spec fn history_id_bytes(
    conversation: Seq<char>,
    direction: MessageDirection,
    counter: Option<u64>,
    ciphertext: Seq<u8>,
) -> Seq<u8> {
    utf8(LOCAL_HISTORY_CONTEXT@) + utf8(conversation) + utf8(direction.name()) + (match counter {
        Some(counter) => be_bytes(counter),
        None => Seq::empty(),
    }) + ciphertext
}

/// The id of a message of the history.
pub open spec fn history_id(
    conversation: Seq<char>,
    direction: MessageDirection,
    counter: Option<u64>,
    ciphertext: Seq<u8>,
) -> Seq<char> {
    hex(sha256(history_id_bytes(conversation, direction, counter, ciphertext)).take(16))
}

/// The id of a message that waits for its peer.
pub open spec fn pending_id(
    peer_id: Seq<char>,
    now: u64,
    plaintext: Seq<char>,
    random: Seq<u8>,
) -> Seq<char> {
    hex(
        sha256(
            utf8(PENDING_MESSAGE_CONTEXT@) + utf8(peer_id) + be_bytes(now) + utf8(plaintext)
                + random,
        ).take(16),
    )
}

/// The contact id of an identity key.
pub open spec fn contact_of_identity(identity: Seq<u8>) -> Seq<char> {
    "contact-"@ + hex(sha256(identity).take(8))
}

/// The contact id of a user of whom only the display name is known.
pub open spec fn contact_of_name(name: Seq<char>) -> Seq<char> {
    "contact-"@ + hex(sha256(utf8(DISPLAY_CONTACT_CONTEXT@) + utf8(shown_name(name))).take(8))
}

/// Whether a line typed into a chat leaves it.
pub open spec fn leaves_chat(line: Seq<char>) -> bool {
    lower(trimmed(line)) == lower("/back"@) || lower(trimmed(line)) == lower("/exit"@)
}

/// The name under which a user with this display name is shown.
pub fn display_name_or_anonymous(display_name: &str) -> (name: String)
    ensures
        name@ == shown_name(display_name@),
{
    let display_name = trim(display_name);
    if same_text(display_name.as_str(), "") {
        proof {
            reveal_strlit("");
        }
        copy_text("Anonymous")
    } else {
        proof {
            reveal_strlit("");
            if display_name@.len() == 0 {
                assert(display_name@ =~= ""@);
            }
        }
        take_chars(display_name.as_str(), DISPLAY_NAME_LIMIT)
    }
}

/// The name shown with a received message: the name that came with it, or the contact's
/// where that one is blank.
pub fn remote_sender_label(sender_display_name: &str, remote_display_name: &str) -> (name: String)
    ensures
        name@ == if trimmed(sender_display_name@).len() == 0 {
            shown_name(remote_display_name@)
        } else {
            shown_name(sender_display_name@)
        },
{
    let sender = trim(sender_display_name);
    proof {
        reveal_strlit("");
        if sender@.len() == 0 {
            assert(sender@ =~= ""@);
        }
    }
    if same_text(sender.as_str(), "") {
        display_name_or_anonymous(remote_display_name)
    } else {
        display_name_or_anonymous(sender_display_name)
    }
}

/// Whether a line typed into a chat leaves it: only `/back` and `/exit` do.
pub fn is_chat_back_command(line: &str) -> (answer: bool)
    ensures
        answer == leaves_chat(line@),
{
    let line = trim(line);
    same_ignoring_ascii_case(line.as_str(), "/back") || same_ignoring_ascii_case(
        line.as_str(),
        "/exit",
    )
}

/// The text up to a limit, with an ellipsis in place of the rest.
pub fn truncate_preview(value: &str, max_chars: usize) -> (preview: String)
    ensures
        preview@ == preview_of(value@, max_chars as nat),
{
    let truncated = take_chars(value, max_chars);
    if same_text(truncated.as_str(), value) {
        truncated
    } else {
        joined(truncated.as_str(), "...")
    }
}

/// How long ago `timestamp` was, in words, by the system's clock.
pub fn relative_time(timestamp: u64) -> (text: String)
    ensures
        exists|now: u64| text@ == age_in_words(#[trigger] age_at(timestamp, now)),
{
    let now: u64 = now_unix_secs();
    relative_time_at(timestamp, now)
}

/// How long before `now` the time `timestamp` was, in words.
pub fn relative_time_at(timestamp: u64, now: u64) -> (text: String)
    ensures
        text@ == age_in_words(age_at(timestamp, now)),
{
    if timestamp >= now {
        return copy_text("just now");
    }
    let age: u64 = now - timestamp;
    if age < 60 {
        copy_text("just now")
    } else if age < 120 {
        copy_text("1 min ago")
    } else if age < 3600 {
        joined(to_decimal(age / 60).as_str(), " min ago")
    } else if age < 7200 {
        copy_text("1 hour ago")
    } else if age < 86400 {
        joined(to_decimal(age / 3600).as_str(), " hours ago")
    } else if age < 172800 {
        copy_text("yesterday")
    } else {
        joined(to_decimal(age / 86400).as_str(), " days ago")
    }
}

/// The line shown under a contact in a list of chats: how many messages wait for it,
/// or else the last message and its age.
pub fn chat_preview_line(summary: &ChatSummary, pending_count: u64, now: u64) -> (line: String)
    ensures
        line@ == preview_line(
            match summary.last_message {
                Some(message) => Some(message@),
                None => None,
            },
            pending_count,
            now,
        ),
{
    if pending_count == 1 {
        return joined("Offline · ", "1 pending message");
    }
    if pending_count > 1 {
        let start = joined("Offline · ", to_decimal(pending_count).as_str());
        return joined(start.as_str(), " pending messages");
    }
    match &summary.last_message {
        Some(message) => {
            let body = match &message.plaintext {
                Some(plaintext) => trim(plaintext.as_str()),
                None => trim("[encrypted]"),
            };
            proof {
                reveal_strlit("");
                if body@.len() == 0 {
                    assert(body@ =~= ""@);
                }
            }
            let shown = if same_text(body.as_str(), "") {
                copy_text("[empty message]")
            } else {
                body
            };
            let preview = match message.direction {
                MessageDirection::Sent => joined("you: ", shown.as_str()),
                MessageDirection::Received => shown,
            };
            assert(preview@ == message_preview(message@));
            let preview = truncate_preview(preview.as_str(), PREVIEW_LIMIT);
            let line = joined("Offline · last message: ", preview.as_str());
            let line = joined(line.as_str(), " · ");
            joined(line.as_str(), relative_time_at(message.created_at_unix_secs, now).as_str())
        },
        None => copy_text("Offline · No messages"),
    }
}

/// The word shown under a sent message.
pub fn message_status_label(status: &MessageStatus) -> (label: &'static str)
    ensures
        label@ == match *status {
            MessageStatus::Stored => "sending..."@,
            MessageStatus::Sent => "sent"@,
            MessageStatus::Received => "delivered"@,
        },
{
    match status {
        MessageStatus::Stored => "sending...",
        MessageStatus::Sent => "sent",
        MessageStatus::Received => "delivered",
    }
}

/// The id of a message of the history: a digest of where it stands and what it carries.
pub fn chat_message_id(
    conversation_id: &str,
    direction: &MessageDirection,
    protocol_counter: Option<u64>,
    ciphertext: &[u8],
) -> (id: String)
    ensures
        id@ == history_id(conversation_id@, *direction, protocol_counter, ciphertext@),
{
    let mut hashed: Vec<u8> = Vec::new();
    append_bytes(&mut hashed, LOCAL_HISTORY_CONTEXT.as_bytes());
    append_bytes(&mut hashed, conversation_id.as_bytes());
    append_bytes(&mut hashed, direction.as_str().as_bytes());
    if let Some(counter) = protocol_counter {
        append_bytes(&mut hashed, to_be_bytes(counter).as_slice());
    }
    append_bytes(&mut hashed, ciphertext);
    assert(hashed@ =~= history_id_bytes(
        conversation_id@,
        *direction,
        protocol_counter,
        ciphertext@,
    ));
    let digest = sha256_digest(hashed.as_slice());
    assert(digest@.subrange(0, 16) =~= digest@.take(16));
    hex_encode(slice_subrange(digest.as_slice(), 0, 16))
}

/// The id of a message that waits for its peer, with time and chance in it.
pub fn pending_peer_message_id(peer_id: &str, plaintext: &str) -> (id: Result<
    String,
    getrandom::Error,
>)
    ensures
        id matches Ok(text) ==> exists|now: u64, random: Seq<u8>|
            random.len() == 16 && text@ == #[trigger] pending_id(
                peer_id@,
                now,
                plaintext@,
                random,
            ),
{
    let random = random_bytes(16);
    let now: u64 = now_unix_secs();
    pending_peer_message_id_from_source(peer_id, plaintext, now, random)
}

/// The id of a message that waits for its peer for what the random source gave: the id
/// with its bytes, or its error.
pub fn pending_peer_message_id_from_source(
    peer_id: &str,
    plaintext: &str,
    now: u64,
    random: Result<Vec<u8>, getrandom::Error>,
) -> (id: Result<String, getrandom::Error>)
    ensures
        match random {
            Ok(bytes) => id matches Ok(text) && text@ == pending_id(
                peer_id@,
                now,
                plaintext@,
                bytes@,
            ),
            Err(error) => id matches Err(told) && told == error,
        },
{
    match random {
        Ok(bytes) => Ok(
            pending_peer_message_id_from(peer_id, plaintext, now, bytes.as_slice()),
        ),
        Err(error) => Err(error),
    }
}

/// The id of a message that waits for its peer, at a time and with random bytes.
pub fn pending_peer_message_id_from(
    peer_id: &str,
    plaintext: &str,
    now: u64,
    random: &[u8],
) -> (id: String)
    ensures
        id@ == pending_id(peer_id@, now, plaintext@, random@),
{
    let mut hashed: Vec<u8> = Vec::new();
    append_bytes(&mut hashed, PENDING_MESSAGE_CONTEXT.as_bytes());
    append_bytes(&mut hashed, peer_id.as_bytes());
    append_bytes(&mut hashed, to_be_bytes(now).as_slice());
    append_bytes(&mut hashed, plaintext.as_bytes());
    append_bytes(&mut hashed, random);
    let digest = sha256_digest(hashed.as_slice());
    assert(digest@.subrange(0, 16) =~= digest@.take(16));
    hex_encode(slice_subrange(digest.as_slice(), 0, 16))
}

/// The contact id of an identity key.
pub fn contact_id_for_identity(identity_public_key: &[u8; 32]) -> (id: String)
    ensures
        id@ == contact_of_identity(identity_public_key@),
{
    let digest = sha256_digest(identity_public_key.as_slice());
    assert(digest@.subrange(0, 8) =~= digest@.take(8));
    joined("contact-", hex_encode(slice_subrange(digest.as_slice(), 0, 8)).as_str())
}

/// The contact id of a user of whom only the display name is known.
pub fn contact_id_for_display_name(display_name: &str) -> (id: String)
    ensures
        id@ == contact_of_name(display_name@),
{
    let mut hashed: Vec<u8> = Vec::new();
    append_bytes(&mut hashed, DISPLAY_CONTACT_CONTEXT.as_bytes());
    append_bytes(&mut hashed, display_name_or_anonymous(display_name).as_str().as_bytes());
    let digest = sha256_digest(hashed.as_slice());
    assert(digest@.subrange(0, 8) =~= digest@.take(8));
    joined("contact-", hex_encode(slice_subrange(digest.as_slice(), 0, 8)).as_str())
}

/// The first six bytes in hexadecimal.
pub fn short_hex(bytes: &[u8]) -> (text: String)
    ensures
        text@ == hex(bytes@.take(if bytes@.len() < 6 { bytes@.len() as int } else { 6 })),
{
    let end: usize = if bytes.len() < 6 {
        bytes.len()
    } else {
        6
    };
    assert(bytes@.subrange(0, end as int) =~= bytes@.take(end as int));
    hex_encode(slice_subrange(bytes, 0, end))
}

/// The bytes in hexadecimal with a space between each two.
pub open spec fn spaced_hex(bytes: Seq<u8>) -> Seq<char>
    decreases bytes.len(),
{
    if bytes.len() == 0 {
        Seq::empty()
    } else if bytes.len() == 1 {
        hex(bytes)
    } else {
        spaced_hex(bytes.drop_last()) + " "@ + hex(seq![bytes.last()])
    }
}

/// The first 96 bytes in hexadecimal with a space between each two.
pub fn hex_preview(bytes: &[u8]) -> (text: String)
    ensures
        text@ == spaced_hex(bytes@.take(if bytes@.len() < 96 { bytes@.len() as int } else { 96 })),
{
    let end: usize = if bytes.len() < 96 {
        bytes.len()
    } else {
        96
    };
    let mut text = String::new();
    let mut i: usize = 0;
    assert(text@ =~= spaced_hex(bytes@.take(0)));
    while i < end
        invariant
            i <= end <= bytes@.len(),
            text@ == spaced_hex(bytes@.take(i as int)),
        decreases end - i,
    {
        let ghost so_far = bytes@.take(i + 1);
        assert(so_far.drop_last() =~= bytes@.take(i as int));
        assert(bytes@.subrange(i as int, i + 1) =~= seq![so_far.last()]);
        let byte = hex_encode(slice_subrange(bytes, i, i + 1));
        if i > 0 {
            text.push_str(" ");
        } else {
            assert(so_far =~= seq![so_far.last()]);
        }
        text.push_str(byte.as_str());
        assert(text@ =~= spaced_hex(so_far));
        i += 1;
    }
    text
}

/// A shown name is never blank and never longer than the limit.
pub proof fn law_shown_name_is_not_blank(name: Seq<char>)
    ensures
        0 < shown_name(name).len() <= DISPLAY_NAME_LIMIT,
{
    reveal_strlit("Anonymous");
}

/// A preview holds no more than the limit and its ellipsis.
pub proof fn law_preview_is_bounded(text: Seq<char>, limit: nat)
    ensures
        preview_of(text, limit).len() <= limit + 3,
        text.len() <= limit ==> preview_of(text, limit) == text,
{
    reveal_strlit("...");
}

} // verus!
