//! A chat over one connection: the lines that are sent, what each frame that comes in
//! does, and the delivery of what waited, one message at a time.

use crate::bytes::{copy_text, same_text, utf8};
use crate::error::CryptoError;
use crate::frames::{ChatFrame, FrameView};
use crate::handshake::{lemma_decoded_fits, MAX_PAYLOAD};
use crate::primitives::aead_overruns;
use crate::profile::{
    incoming_entry, is_frame_of, outgoing_entry, outgoing_id, pending_place, ChatHistoryEntry,
    ChatNames, ChatParty, EntryView, PendingOrder, PendingPeerMessage, PendingRow, Profile,
    ProfileView,
};
use crate::records::{MessageDirection, MessageStatus};
use crate::session::{is_sent, MessageView, SessionView};
use crate::sorted::{is_selection, option_view, views};
use crate::wire::{decode, decoding, encode, is_form_of, Wire};
use vstd::prelude::*;

verus! {

/// Why a frame was not taken.
#[derive(Debug, Clone, PartialEq, Eq, Structural)]
pub enum FrameError {
    /// The bytes are no frame.
    Malformed,
    Crypto(CryptoError),
}

impl FrameError {
    pub open spec fn name(self) -> Seq<char> {
        match self {
            FrameError::Malformed => "malformed chat frame"@,
            FrameError::Crypto(error) => error.name(),
        }
    }

    pub fn message(&self) -> (text: &'static str)
        ensures
            text@ == self.name(),
    {
        match self {
            FrameError::Malformed => "malformed chat frame",
            FrameError::Crypto(error) => error.message(),
        }
    }
}

/// What a frame that came in was.
#[derive(Debug, Clone, PartialEq, Eq)]
pub enum FrameStep {
    /// A message, which is to be confirmed. Its text is there where it is new.
    Message { message_id: String, sender_display_name: String, plaintext: Option<String> },
    /// The confirmation of a message.
    Acknowledged { message_id: String },
}

/// The contents of a `FrameStep`.
#[verifier::ext_equal]
pub enum StepView {
    Message {
        message_id: Seq<char>,
        sender_display_name: Seq<char>,
        plaintext: Option<Seq<char>>,
    },
    Acknowledged { message_id: Seq<char> },
}

impl View for FrameStep {
    type V = StepView;

    open spec fn view(&self) -> StepView {
        match *self {
            FrameStep::Message { message_id, sender_display_name, plaintext } => StepView::Message {
                message_id: message_id@,
                sender_display_name: sender_display_name@,
                plaintext: option_view(plaintext),
            },
            FrameStep::Acknowledged { message_id } => StepView::Acknowledged {
                message_id: message_id@,
            },
        }
    }
}

/// Whether the counter of a session can count the message of a frame, if it carries one.
pub open spec fn frame_fits(session: Option<SessionView>, bytes: Seq<u8>) -> bool {
    decoding::<ChatFrame>(bytes) matches Some(frame) ==> frame matches FrameView::Message {
        message,
        ..
    } ==> session matches Some(session) ==> session.can_receive(message)
}

/// What a chat knows of its two sides.
#[verifier::ext_equal]
pub struct NamesView {
    pub local: Seq<char>,
    pub remote: Seq<char>,
    pub conversation: Seq<char>,
}

impl<'a> View for ChatNames<'a> {
    type V = NamesView;

    open spec fn view(&self) -> NamesView {
        NamesView {
            local: self.local_display_name@,
            remote: self.remote_display_name@,
            conversation: self.conversation_id@,
        }
    }
}

/// Whether a profile took a new message in as `entry`, with its party kept where that was
/// asked for.
pub open spec fn was_taken_in<P: ChatParty>(
    before: ProfileView,
    after: ProfileView,
    party: P,
    keep: bool,
    entry: EntryView,
    now: u64,
) -> bool {
    exists|state: Seq<u8>| #[trigger]
        party.is_stored_as(state) && after == before.with_received(
            if keep {
                Some((P::slot(), state))
            } else {
                None
            },
            entry,
            now,
        )
}

/// What the message of a frame does to a profile and its party, and what comes of it.
pub open spec fn message_is_taken<P: ChatParty>(
    before: ProfileView,
    after: ProfileView,
    party: P,
    party_after: P,
    names: NamesView,
    message_id: Seq<char>,
    sender: Seq<char>,
    message: MessageView,
    bytes: Seq<u8>,
    keep: bool,
    now: u64,
    read: Result<Option<Seq<char>>, CryptoError>,
) -> bool {
    if before.storage.messages.contains_key(message_id) {
        &&& party_after == party
        &&& after == before
        &&& read == Ok::<Option<Seq<char>>, CryptoError>(None)
    } else {
        &&& party_after.keys() == party.keys()
        &&& match party.session() {
            None => {
                &&& party_after.session() is None
                &&& after == before
                &&& read == Err::<Option<Seq<char>>, CryptoError>(CryptoError::MissingSessionKey)
            },
            Some(session) => {
                &&& party_after.session() == Some(session.receiving(message).0)
                &&& match session.receiving(message).1 {
                    Err(error) => {
                        &&& read == Err::<Option<Seq<char>>, CryptoError>(error)
                        &&& after == before
                    },
                    Ok(text) => {
                        &&& read == Ok::<Option<Seq<char>>, CryptoError>(Some(text))
                        &&& was_taken_in(
                            before,
                            after,
                            party_after,
                            keep,
                            incoming_entry(
                                message_id,
                                names.conversation,
                                sender,
                                names.local,
                                message.number,
                                bytes,
                                text,
                            ),
                            now,
                        )
                    },
                }
            },
        }
    }
}

/// The text of a new message that a step brings, or why there is none.
pub open spec fn read_of(step: Result<FrameStep, FrameError>) -> Result<
    Option<Seq<char>>,
    CryptoError,
> {
    match step {
        Ok(FrameStep::Message { plaintext, .. }) => Ok(option_view(plaintext)),
        Err(FrameError::Crypto(error)) => Err(error),
        _ => Ok(None),
    }
}

/// What a frame does to a profile and its party, and what comes of it.
pub open spec fn frame_is_taken<P: ChatParty>(
    before: ProfileView,
    after: ProfileView,
    party: P,
    party_after: P,
    names: NamesView,
    bytes: Seq<u8>,
    keep: bool,
    now: u64,
    step: Result<FrameStep, FrameError>,
) -> bool {
    match decoding::<ChatFrame>(bytes) {
        None => {
            &&& step matches Err(error) && error == FrameError::Malformed
            &&& party_after == party
            &&& after == before
        },
        Some(FrameView::Ack { message_id }) => {
            &&& step matches Ok(step) && step@ == (StepView::Acknowledged { message_id })
            &&& party_after == party
            &&& after == before
        },
        Some(FrameView::Message { message_id, sender_display_name, message }) => {
            &&& step matches Ok(step) ==> step@ == (StepView::Message {
                message_id,
                sender_display_name,
                plaintext: read_of(Ok(step))->Ok_0,
            })
            &&& step matches Err(error) ==> error is Crypto
            &&& message_is_taken(
                before,
                after,
                party,
                party_after,
                names,
                message_id,
                sender_display_name,
                message,
                bytes,
                keep,
                now,
                read_of(step),
            )
        },
    }
}

/// Takes a frame of a chat. A message that is not in the history is read and enters it; one
/// that is there is only confirmed again. A confirmation changes nothing by itself.
pub fn take_frame<P: ChatParty>(
    profile: &mut Profile,
    party: &mut P,
    names: &ChatNames<'_>,
    bytes: &[u8],
    keep: bool,
    now: u64,
) -> (step: Result<FrameStep, FrameError>)
    requires
        old(profile).wf(),
        bytes@.len() <= MAX_PAYLOAD,
        frame_fits(old(party).session(), bytes@),
    ensures
        final(profile).wf(),
        frame_is_taken(
            old(profile)@,
            final(profile)@,
            *old(party),
            *final(party),
            names@,
            bytes@,
            keep,
            now,
            step,
        ),
{
    let frame: ChatFrame = match decode(bytes) {
        Some(frame) => frame,
        None => {
            return Err(FrameError::Malformed);
        },
    };
    proof {
        lemma_decoded_fits::<ChatFrame>(bytes@);
    }
    match frame {
        ChatFrame::Ack { message_id } => Ok(FrameStep::Acknowledged { message_id }),
        ChatFrame::Message { message_id, sender_display_name, message } => {
            match profile.receive_message(
                party,
                names,
                message_id.as_str(),
                sender_display_name.as_str(),
                &message,
                bytes,
                keep,
                now,
            ) {
                Ok(plaintext) => {
                    let step = FrameStep::Message { message_id, sender_display_name, plaintext };
                    assert(read_of(Ok(step)) == Ok::<Option<Seq<char>>, CryptoError>(
                        option_view(plaintext),
                    ));
                    Ok(step)
                },
                Err(error) => Err(FrameError::Crypto(error)),
            }
        },
    }
}

/// The frame that confirms a message.
pub fn ack_frame(message_id: &str) -> (bytes: Vec<u8>)
    ensures
        is_form_of::<ChatFrame>(bytes@, FrameView::Ack { message_id: message_id@ }),
{
    encode(&ChatFrame::Ack { message_id: copy_text(message_id) })
}

/// Whether a frame and its id are those of a line of a chat.
pub open spec fn is_line_frame(
    id: Seq<char>,
    frame: Seq<u8>,
    session: SessionView,
    names: NamesView,
    line: Seq<char>,
    existing: Option<Seq<char>>,
) -> bool {
    exists|message: MessageView| #[trigger]
        is_sent(session, message, line) && id == outgoing_id(existing, names.conversation, message)
            && is_frame_of(frame, id, names.local, message)
}

/// Encrypts a line of a chat and writes it into a frame. The line enters the history with
/// `keep_line`, once the frame is sent.
pub fn write_line<P: ChatParty>(
    party: &mut P,
    names: &ChatNames<'_>,
    line: &str,
    existing_message_id: Option<String>,
) -> (written: Result<(String, Vec<u8>), CryptoError>)
    requires
        old(party).session() matches Some(session) ==> session.can_send(),
        !aead_overruns(utf8(line@).len() as int),
    ensures
        final(party).keys() == old(party).keys(),
        old(party).session() is None ==> final(party).session() is None && written == Err::<
            (String, Vec<u8>),
            CryptoError,
        >(CryptoError::MissingSessionKey),
        old(party).session() matches Some(session) ==> {
            &&& final(party).session() == Some(session.send_advanced())
            &&& written is Err <==> utf8(line@).len() >= 64 * 0xffff_ffff
            &&& written matches Err(error) ==> error == CryptoError::Encrypt
            &&& written matches Ok((id, frame)) ==> is_line_frame(
                id@,
                frame@,
                session,
                names@,
                line@,
                option_view(existing_message_id),
            )
        },
{
    let message = match party.encrypt(line) {
        Ok(message) => message,
        Err(error) => {
            return Err(error);
        },
    };
    let ghost sent = message@;
    let message_id = match existing_message_id {
        Some(id) => id,
        None => {
            let message_bytes = encode(&message);
            crate::chat::chat_message_id(
                names.conversation_id,
                &MessageDirection::Sent,
                Some(message.number),
                message_bytes.as_slice(),
            )
        },
    };
    let frame = encode(
        &ChatFrame::Message {
            message_id: message_id.clone(),
            sender_display_name: copy_text(names.local_display_name),
            message,
        },
    );
    proof {
        let session = old(party).session()->0;
        assert(is_sent(session, sent, line@));
        assert(is_line_frame(
            message_id@,
            frame@,
            session,
            names@,
            line@,
            option_view(existing_message_id),
        ));
    }
    Ok((message_id, frame))
}

/// Enters a line that was sent into the history.
pub fn keep_line(
    profile: &mut Profile,
    names: &ChatNames<'_>,
    message_id: &str,
    frame: &[u8],
    line: &str,
    now: u64,
)
    requires
        old(profile).wf(),
    ensures
        final(profile).wf(),
        final(profile)@ == old(profile)@.with_history(
            outgoing_entry(
                message_id@,
                names@.conversation,
                names@.local,
                names@.remote,
                frame@,
                line@,
            ),
            now,
        ),
{
    profile.persist_chat_message(
        ChatHistoryEntry {
            message_id: Some(copy_text(message_id)),
            conversation_id: names.conversation_id,
            sender_display_name: names.local_display_name,
            peer_display_name: names.remote_display_name,
            direction: MessageDirection::Sent,
            status: MessageStatus::Sent,
            protocol_counter: None,
            ciphertext: frame,
            plaintext: line,
        },
        now,
    );
}

/// The delivery of what waited for a peer, one message at a time: each is written into a
/// frame, and the next follows once it is confirmed.
pub struct QueueFlush {
    items: Vec<PendingPeerMessage>,
    written: usize,
}

/// The contents of a `QueueFlush`: the messages, and how many of them were written.
#[verifier::ext_equal]
pub struct FlushView {
    pub items: Seq<PendingRow>,
    pub written: nat,
}

impl View for QueueFlush {
    type V = FlushView;

    closed spec fn view(&self) -> FlushView {
        FlushView { items: views(self.items@), written: self.written as nat }
    }
}

/// What a frame was that came in while a message waited for its confirmation.
#[derive(Debug, Clone, PartialEq, Eq)]
pub enum AwaitStep {
    /// The confirmation that was waited for.
    Confirmed,
    /// Anything else.
    Other(FrameStep),
}

impl FlushView {
    /// The message whose confirmation is waited for.
    pub open spec fn awaited(self) -> Option<Seq<char>> {
        if self.written == 0 {
            None
        } else {
            Some(self.items[self.written - 1].message_id)
        }
    }
}

impl QueueFlush {
    pub closed spec fn wf(&self) -> bool {
        self.written <= self.items@.len()
    }

    /// The messages that wait for the peer of a conversation, the oldest first.
    pub fn start(profile: &Profile, conversation_id: &str) -> (flush: QueueFlush)
        requires
            profile.wf(),
        ensures
            flush.wf(),
            flush@.written == 0,
            is_selection::<Seq<char>, PendingRow, PendingOrder>(
                flush@.items,
                profile@.pending,
                pending_place(conversation_id@),
            ),
    {
        QueueFlush {
            items: profile.pending_peer_messages_for_peer(conversation_id),
            written: 0,
        }
    }

    /// How many messages there are.
    pub fn len(&self) -> (count: usize)
        ensures
            count == self@.items.len(),
    {
        self.items.len()
    }

    /// Writes the next message into a frame and counts the attempt, if there is one left.
    pub fn write_next<P: ChatParty>(
        &mut self,
        profile: &mut Profile,
        party: &mut P,
        local_display_name: &str,
        now: u64,
    ) -> (frame: Option<Result<Vec<u8>, CryptoError>>)
        requires
            old(self).wf(),
            old(profile).wf(),
            old(self)@.written < old(self)@.items.len() ==> {
                &&& old(party).session() matches Some(session) ==> session.can_send()
                &&& !aead_overruns(
                    utf8(old(self)@.items[old(self)@.written as int].plaintext).len() as int,
                )
            },
        ensures
            final(self).wf(),
            final(profile).wf(),
            final(self)@.items == old(self)@.items,
            old(self)@.written == old(self)@.items.len() ==> {
                &&& frame is None
                &&& *final(self) == *old(self)
                &&& final(profile)@ == old(profile)@
                &&& *final(party) == *old(party)
            },
            old(self)@.written < old(self)@.items.len() ==> {
                let item = old(self)@.items[old(self)@.written as int];
                &&& final(self)@.written == old(self)@.written + 1
                &&& final(profile)@ == old(profile)@.with_attempt(item.message_id, now)
                &&& final(party).keys() == old(party).keys()
                &&& old(party).session() is None ==> {
                    &&& final(party).session() is None
                    &&& frame == Some(Err::<Vec<u8>, CryptoError>(CryptoError::MissingSessionKey))
                }
                &&& old(party).session() matches Some(session) ==> {
                    &&& final(party).session() == Some(session.send_advanced())
                    &&& utf8(item.plaintext).len() >= 64 * 0xffff_ffff ==> frame == Some(
                        Err::<Vec<u8>, CryptoError>(CryptoError::Encrypt),
                    )
                    &&& utf8(item.plaintext).len() < 64 * 0xffff_ffff ==> (frame matches Some(
                        Ok(bytes),
                    ) && crate::handshake::is_frame_for(
                        bytes@,
                        session,
                        item,
                        local_display_name@,
                    ))
                }
            },
    {
        if self.written >= self.items.len() {
            return None;
        }
        let at: usize = self.written;
        self.written = at + 1;
        let item = &self.items[at];
        proof {
            assert(old(self)@.items[at as int] == item@);
        }
        profile.record_pending_peer_message_attempt(item.message_id.as_str(), now);
        match party.encrypt(item.plaintext.as_str()) {
            Err(error) => Some(Err(error)),
            Ok(message) => {
                let ghost sent = message@;
                let bytes = encode(
                    &ChatFrame::Message {
                        message_id: item.message_id.clone(),
                        sender_display_name: copy_text(local_display_name),
                        message,
                    },
                );
                proof {
                    let session = old(party).session()->0;
                    assert(is_sent(session, sent, item@.plaintext));
                    assert(crate::handshake::is_frame_for(
                        bytes@,
                        session,
                        item@,
                        local_display_name@,
                    ));
                }
                Some(Ok(bytes))
            },
        }
    }

    /// Takes a frame that came in after a message was written. The confirmation of that
    /// message ends its wait; any other frame is taken as in the chat itself.
    pub fn take_frame<P: ChatParty>(
        &self,
        profile: &mut Profile,
        party: &mut P,
        names: &ChatNames<'_>,
        bytes: &[u8],
        now: u64,
    ) -> (step: Result<AwaitStep, FrameError>)
        requires
            self.wf(),
            old(profile).wf(),
            bytes@.len() <= MAX_PAYLOAD,
            frame_fits(old(party).session(), bytes@),
        ensures
            final(profile).wf(),
            ({
                let confirmed = self@.awaited() matches Some(id) && decoding::<ChatFrame>(bytes@)
                    == Some(FrameView::Ack { message_id: id });
                &&& confirmed ==> {
                    &&& step matches Ok(step) && step is Confirmed
                    &&& final(profile)@ == old(profile)@.with_delivery(self@.awaited()->0)
                    &&& *final(party) == *old(party)
                }
                &&& !confirmed ==> {
                    &&& step matches Ok(step) ==> step is Other
                    &&& frame_is_taken(
                        old(profile)@,
                        final(profile)@,
                        *old(party),
                        *final(party),
                        names@,
                        bytes@,
                        false,
                        now,
                        other_of(step),
                    )
                }
            }),
    {
        match take_frame(profile, party, names, bytes, false, now) {
            Err(error) => Err(error),
            Ok(FrameStep::Acknowledged { message_id }) => {
                if self.written > 0 {
                    let item = &self.items[self.written - 1];
                    assert(self@.items[self.written - 1] == item@);
                    if same_text(item.message_id.as_str(), message_id.as_str()) {
                        profile.mark_delivered_if_pending(message_id.as_str());
                        return Ok(AwaitStep::Confirmed);
                    }
                }
                Ok(AwaitStep::Other(FrameStep::Acknowledged { message_id }))
            },
            Ok(step) => Ok(AwaitStep::Other(step)),
        }
    }
}

/// The step of a frame that was not the confirmation that was waited for.
pub open spec fn other_of(step: Result<AwaitStep, FrameError>) -> Result<FrameStep, FrameError> {
    match step {
        Ok(AwaitStep::Other(step)) => Ok(step),
        Ok(AwaitStep::Confirmed) => arbitrary(),
        Err(error) => Err(error),
    }
}

/// A line that one side writes is shown on the other side, under the name that its frame
/// carries, where the two sessions are in step and the line is not in the history there.
/// It is then in that history and its id is marked as accepted. The confirmation of the id
/// ends the wait of the side that wrote it.
pub proof fn law_line_is_read_and_confirmed<P: ChatParty>(
    sender: SessionView,
    chain: Seq<u8>,
    id: Seq<char>,
    sender_name: Seq<char>,
    message: MessageView,
    line: Seq<char>,
    frame: Seq<u8>,
    before: ProfileView,
    after: ProfileView,
    party: P,
    party_after: P,
    names: NamesView,
    keep: bool,
    now: u64,
    step: Result<FrameStep, FrameError>,
    writer: ProfileView,
)
    requires
        sender.can_send(),
        is_sent(sender, message, line),
        is_frame_of(frame, id, sender_name, message),
        party.session() matches Some(receiver) && crate::session_laws::in_step(
            sender,
            receiver,
            chain,
        ),
        !before.storage.messages.contains_key(id),
        frame_is_taken(before, after, party, party_after, names, frame, keep, now, step),
    ensures
        step matches Ok(step) && step@ == (StepView::Message {
            message_id: id,
            sender_display_name: sender_name,
            plaintext: Some(line),
        }),
        after.storage.messages.contains_key(id),
        after.storage.messages[id].plaintext == Some(line),
        after.storage.messages[id].conversation_id == names.conversation,
        after.storage.accepted.contains_key(id),
        party_after.session() matches Some(receiver) && crate::session_laws::in_step(
            sender.send_advanced(),
            receiver,
            chain,
        ),
        !writer.with_delivery(id).pending.contains_key(id),
{
    let receiver = party.session()->0;
    crate::session_laws::law_messages_in_order_are_read(sender, receiver, chain, message, line);
}

} // verus!
