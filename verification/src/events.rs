//! The events that a conversation consists of, and their binary form.

use crate::bytes::append_bytes;
use crate::codec::{
    begins_with, decode_u32, encode_bytes, encode_text, encode_u32, encode_u64, encoded_bytes,
    encoded_text, le_bytes, lemma_begins_with_parts, lemma_bytes_are_read_back, lemma_fits,
    lemma_number_is_read_back, lemma_text_is_read_back, read_bytes, read_text, read_u64,
};
use vstd::prelude::*;

verus! {

/// Names the event that added a reaction: its device and the device's count.
#[derive(Debug, Clone, PartialEq, Eq, PartialOrd, Ord)]
pub struct ReactionAddId {
    pub device_id: String,
    pub counter: u64,
}

/// Something that happened in a conversation.
#[derive(Debug, Clone, PartialEq, Eq)]
pub enum ConversationEvent {
    MessageCreated { message_id: String, author_id: String, payload: Vec<u8> },
    MessageDeleted { message_id: String },
    ReactionAdded { message_id: String, reaction: String, actor_id: String },
    ReactionRemoved { reaction_add: ReactionAddId },
    ReadAdvanced { actor_id: String, read_device_id: String, read_counter: u64 },
}

/// The contents of a `ConversationEvent`.
pub enum EventBody {
    MessageCreated { message_id: Seq<char>, author_id: Seq<char>, payload: Seq<u8> },
    MessageDeleted { message_id: Seq<char> },
    ReactionAdded { message_id: Seq<char>, reaction: Seq<char>, actor_id: Seq<char> },
    ReactionRemoved { device_id: Seq<char>, counter: u64 },
    ReadAdvanced { actor_id: Seq<char>, read_device_id: Seq<char>, read_counter: u64 },
}

impl View for ConversationEvent {
    type V = EventBody;

    open spec fn view(&self) -> EventBody {
        match *self {
            ConversationEvent::MessageCreated { message_id, author_id, payload } => {
                EventBody::MessageCreated {
                    message_id: message_id@,
                    author_id: author_id@,
                    payload: payload@,
                }
            },
            ConversationEvent::MessageDeleted { message_id } => {
                EventBody::MessageDeleted { message_id: message_id@ }
            },
            ConversationEvent::ReactionAdded { message_id, reaction, actor_id } => {
                EventBody::ReactionAdded {
                    message_id: message_id@,
                    reaction: reaction@,
                    actor_id: actor_id@,
                }
            },
            ConversationEvent::ReactionRemoved { reaction_add } => EventBody::ReactionRemoved {
                device_id: reaction_add.device_id@,
                counter: reaction_add.counter,
            },
            ConversationEvent::ReadAdvanced { actor_id, read_device_id, read_counter } => {
                EventBody::ReadAdvanced {
                    actor_id: actor_id@,
                    read_device_id: read_device_id@,
                    read_counter,
                }
            },
        }
    }
}

impl EventBody {
    /// The number that tells the kinds of events apart.
    pub open spec fn tag(self) -> u32 {
        match self {
            EventBody::MessageCreated { .. } => 0,
            EventBody::MessageDeleted { .. } => 1,
            EventBody::ReactionAdded { .. } => 2,
            EventBody::ReactionRemoved { .. } => 3,
            EventBody::ReadAdvanced { .. } => 4,
        }
    }

    /// The name of the kind of event.
    pub open spec fn kind_name(self) -> Seq<char> {
        match self {
            EventBody::MessageCreated { .. } => "MessageCreated"@,
            EventBody::MessageDeleted { .. } => "MessageDeleted"@,
            EventBody::ReactionAdded { .. } => "ReactionAdded"@,
            EventBody::ReactionRemoved { .. } => "ReactionRemoved"@,
            EventBody::ReadAdvanced { .. } => "ReadAdvanced"@,
        }
    }

    /// The message that the event is filed under.
    pub open spec fn message_id(self) -> Option<Seq<char>> {
        match self {
            EventBody::MessageCreated { message_id, .. } => Some(message_id),
            EventBody::MessageDeleted { message_id } => Some(message_id),
            EventBody::ReactionAdded { message_id, .. } => Some(message_id),
            EventBody::ReactionRemoved { .. } => None,
            EventBody::ReadAdvanced { .. } => None,
        }
    }

    /// The binary form of what the event carries.
    pub open spec fn fields(self) -> Seq<u8> {
        match self {
            EventBody::MessageCreated { message_id, author_id, payload } => encoded_text(message_id)
                + (encoded_text(author_id) + encoded_bytes(payload)),
            EventBody::MessageDeleted { message_id } => encoded_text(message_id),
            EventBody::ReactionAdded { message_id, reaction, actor_id } => encoded_text(message_id)
                + (encoded_text(reaction) + encoded_text(actor_id)),
            EventBody::ReactionRemoved { device_id, counter } => encoded_text(device_id) + le_bytes(
                counter as nat,
                8,
            ),
            EventBody::ReadAdvanced { actor_id, read_device_id, read_counter } => encoded_text(
                actor_id,
            ) + (encoded_text(read_device_id) + le_bytes(read_counter as nat, 8)),
        }
    }

    /// The binary form of the event.
    pub open spec fn encoded(self) -> Seq<u8> {
        le_bytes(self.tag() as nat, 4) + self.fields()
    }
}

/// The event whose binary form a byte string begins with, where there is one.
pub open spec fn decoded(bytes: Seq<u8>) -> Option<EventBody> {
    if exists|event: EventBody| begins_with(bytes, #[trigger] event.encoded()) {
        Some(choose|event: EventBody| begins_with(bytes, #[trigger] event.encoded()))
    } else {
        None
    }
}

/// A byte string begins with the binary form of one event only.
pub proof fn lemma_one_event(bytes: Seq<u8>, a: EventBody, b: EventBody)
    requires
        begins_with(bytes, a.encoded()),
        begins_with(bytes, b.encoded()),
        bytes.len() <= u64::MAX,
    ensures
        a == b,
{
    let tag_a = le_bytes(a.tag() as nat, 4);
    let tag_b = le_bytes(b.tag() as nat, 4);
    lemma_begins_with_parts(bytes, tag_a, a.fields());
    lemma_begins_with_parts(bytes, tag_b, b.fields());
    lemma_fits(a.tag() as nat);
    lemma_fits(b.tag() as nat);
    lemma_number_is_read_back(bytes, a.tag() as nat, b.tag() as nat, 4);
    let rest = bytes.skip(4);
    match (a, b) {
        (
            EventBody::MessageCreated { message_id, author_id, payload },
            EventBody::MessageCreated { message_id: m, author_id: u, payload: p },
        ) => {
            lemma_begins_with_parts(
                rest,
                encoded_text(message_id),
                encoded_text(author_id) + encoded_bytes(payload),
            );
            lemma_begins_with_parts(rest, encoded_text(m), encoded_text(u) + encoded_bytes(p));
            lemma_text_is_read_back(rest, message_id, m);
            let next = rest.skip(encoded_text(m).len() as int);
            lemma_begins_with_parts(next, encoded_text(author_id), encoded_bytes(payload));
            lemma_begins_with_parts(next, encoded_text(u), encoded_bytes(p));
            lemma_text_is_read_back(next, author_id, u);
            lemma_bytes_are_read_back(next.skip(encoded_text(u).len() as int), payload, p);
        },
        (
            EventBody::MessageDeleted { message_id },
            EventBody::MessageDeleted { message_id: m },
        ) => {
            lemma_text_is_read_back(rest, message_id, m);
        },
        (
            EventBody::ReactionAdded { message_id, reaction, actor_id },
            EventBody::ReactionAdded { message_id: m, reaction: r, actor_id: u },
        ) => {
            lemma_begins_with_parts(
                rest,
                encoded_text(message_id),
                encoded_text(reaction) + encoded_text(actor_id),
            );
            lemma_begins_with_parts(rest, encoded_text(m), encoded_text(r) + encoded_text(u));
            lemma_text_is_read_back(rest, message_id, m);
            let next = rest.skip(encoded_text(m).len() as int);
            lemma_begins_with_parts(next, encoded_text(reaction), encoded_text(actor_id));
            lemma_begins_with_parts(next, encoded_text(r), encoded_text(u));
            lemma_text_is_read_back(next, reaction, r);
            lemma_text_is_read_back(next.skip(encoded_text(r).len() as int), actor_id, u);
        },
        (
            EventBody::ReactionRemoved { device_id, counter },
            EventBody::ReactionRemoved { device_id: d, counter: c },
        ) => {
            lemma_begins_with_parts(rest, encoded_text(device_id), le_bytes(counter as nat, 8));
            lemma_begins_with_parts(rest, encoded_text(d), le_bytes(c as nat, 8));
            lemma_text_is_read_back(rest, device_id, d);
            lemma_fits(counter as nat);
            lemma_fits(c as nat);
            lemma_number_is_read_back(
                rest.skip(encoded_text(d).len() as int),
                counter as nat,
                c as nat,
                8,
            );
        },
        (
            EventBody::ReadAdvanced { actor_id, read_device_id, read_counter },
            EventBody::ReadAdvanced { actor_id: u, read_device_id: d, read_counter: c },
        ) => {
            lemma_begins_with_parts(
                rest,
                encoded_text(actor_id),
                encoded_text(read_device_id) + le_bytes(read_counter as nat, 8),
            );
            lemma_begins_with_parts(rest, encoded_text(u), encoded_text(d) + le_bytes(c as nat, 8));
            lemma_text_is_read_back(rest, actor_id, u);
            let next = rest.skip(encoded_text(u).len() as int);
            lemma_begins_with_parts(
                next,
                encoded_text(read_device_id),
                le_bytes(read_counter as nat, 8),
            );
            lemma_begins_with_parts(next, encoded_text(d), le_bytes(c as nat, 8));
            lemma_text_is_read_back(next, read_device_id, d);
            lemma_fits(read_counter as nat);
            lemma_fits(c as nat);
            lemma_number_is_read_back(
                next.skip(encoded_text(d).len() as int),
                read_counter as nat,
                c as nat,
                8,
            );
        },
        _ => {},
    }
}

/// Every event is read back from its binary form, whatever follows it.
pub proof fn law_event_is_read_back(event: EventBody, bytes: Seq<u8>)
    requires
        begins_with(bytes, event.encoded()),
        bytes.len() <= u64::MAX,
    ensures
        decoded(bytes) == Some(event),
{
    lemma_one_event(bytes, event, decoded(bytes)->0);
}

impl ConversationEvent {
    /// The name of the kind of event.
    pub fn event_type(&self) -> (name: &'static str)
        ensures
            name@ == self@.kind_name(),
    {
        match self {
            ConversationEvent::MessageCreated { .. } => "MessageCreated",
            ConversationEvent::MessageDeleted { .. } => "MessageDeleted",
            ConversationEvent::ReactionAdded { .. } => "ReactionAdded",
            ConversationEvent::ReactionRemoved { .. } => "ReactionRemoved",
            ConversationEvent::ReadAdvanced { .. } => "ReadAdvanced",
        }
    }

    /// The number that tells the kinds of events apart.
    fn tag(&self) -> (tag: u32)
        ensures
            tag == self@.tag(),
    {
        match self {
            ConversationEvent::MessageCreated { .. } => 0,
            ConversationEvent::MessageDeleted { .. } => 1,
            ConversationEvent::ReactionAdded { .. } => 2,
            ConversationEvent::ReactionRemoved { .. } => 3,
            ConversationEvent::ReadAdvanced { .. } => 4,
        }
    }
}

fn write_text(bytes: &mut Vec<u8>, text: &str)
    ensures
        final(bytes)@ == old(bytes)@ + encoded_text(text@),
{
    if let Ok(part) = encode_text(text) {
        append_bytes(bytes, part.as_slice());
    }
}

fn write_bytes(bytes: &mut Vec<u8>, tail: &[u8])
    ensures
        final(bytes)@ == old(bytes)@ + encoded_bytes(tail@),
{
    if let Ok(part) = encode_bytes(tail) {
        append_bytes(bytes, part.as_slice());
    }
}

fn write_u64(bytes: &mut Vec<u8>, number: u64)
    ensures
        final(bytes)@ == old(bytes)@ + le_bytes(number as nat, 8),
{
    if let Ok(part) = encode_u64(number) {
        append_bytes(bytes, part.as_slice());
    }
}

/// Writes an event in its binary form.
pub fn encode_event(event: &ConversationEvent) -> (bytes: Vec<u8>)
    ensures
        bytes@ == event@.encoded(),
{
    let mut bytes: Vec<u8> = Vec::new();
    if let Ok(part) = encode_u32(event.tag()) {
        append_bytes(&mut bytes, part.as_slice());
    }
    match event {
        ConversationEvent::MessageCreated { message_id, author_id, payload } => {
            write_text(&mut bytes, message_id.as_str());
            write_text(&mut bytes, author_id.as_str());
            write_bytes(&mut bytes, payload.as_slice());
        },
        ConversationEvent::MessageDeleted { message_id } => {
            write_text(&mut bytes, message_id.as_str());
        },
        ConversationEvent::ReactionAdded { message_id, reaction, actor_id } => {
            write_text(&mut bytes, message_id.as_str());
            write_text(&mut bytes, reaction.as_str());
            write_text(&mut bytes, actor_id.as_str());
        },
        ConversationEvent::ReactionRemoved { reaction_add } => {
            write_text(&mut bytes, reaction_add.device_id.as_str());
            write_u64(&mut bytes, reaction_add.counter);
        },
        ConversationEvent::ReadAdvanced { actor_id, read_device_id, read_counter } => {
            write_text(&mut bytes, actor_id.as_str());
            write_text(&mut bytes, read_device_id.as_str());
            write_u64(&mut bytes, *read_counter);
        },
    }
    assert(bytes@ =~= event@.encoded());
    bytes
}

proof fn lemma_three_parts(bytes: Seq<u8>, a: Seq<u8>, b: Seq<u8>, c: Seq<u8>)
    ensures
        begins_with(bytes, a + (b + c)) <==> {
            &&& begins_with(bytes, a)
            &&& begins_with(bytes.skip(a.len() as int), b)
            &&& begins_with(bytes.skip(a.len() as int).skip(b.len() as int), c)
        },
{
    lemma_begins_with_parts(bytes, a, b + c);
    lemma_begins_with_parts(bytes.skip(a.len() as int), b, c);
}

/// Two texts and a byte string, one behind the other.
pub open spec fn two_texts_and_bytes(a: Seq<char>, b: Seq<char>, c: Seq<u8>) -> Seq<u8> {
    encoded_text(a) + (encoded_text(b) + encoded_bytes(c))
}

/// Three texts, one behind the other.
pub open spec fn three_texts(a: Seq<char>, b: Seq<char>, c: Seq<char>) -> Seq<u8> {
    encoded_text(a) + (encoded_text(b) + encoded_text(c))
}

/// A text and a number, one behind the other.
pub open spec fn text_and_number(a: Seq<char>, b: u64) -> Seq<u8> {
    encoded_text(a) + le_bytes(b as nat, 8)
}

/// Two texts and a number, one behind the other.
pub open spec fn two_texts_and_number(a: Seq<char>, b: Seq<char>, c: u64) -> Seq<u8> {
    encoded_text(a) + (encoded_text(b) + le_bytes(c as nat, 8))
}

fn read_two_texts(bytes: &[u8], at: usize) -> (read: Option<(String, String, usize)>)
    requires
        at <= bytes@.len(),
    ensures
        match read {
            Some((a, b, next)) => {
                let rest = bytes@.skip(at as int);
                &&& begins_with(rest, encoded_text(a@))
                &&& begins_with(rest.skip(encoded_text(a@).len() as int), encoded_text(b@))
                &&& next == at + encoded_text(a@).len() + encoded_text(b@).len()
                &&& next <= bytes@.len()
            },
            None => forall|a: Seq<char>, b: Seq<char>| #![trigger encoded_text(a), encoded_text(b)]
                {
                    let rest = bytes@.skip(at as int);
                    !(begins_with(rest, encoded_text(a)) && begins_with(
                        rest.skip(encoded_text(a).len() as int),
                        encoded_text(b),
                    ))
                },
        },
{
    let ghost rest = bytes@.skip(at as int);
    let total: usize = bytes.len();
    match read_text(bytes, at) {
        None => None,
        Some((a, middle)) => {
            assert(bytes@.skip(middle as int) =~= rest.skip(encoded_text(a@).len() as int));
            match read_text(bytes, middle) {
                None => {
                    proof {
                        assert forall|x: Seq<char>, y: Seq<char>|
                            #![trigger encoded_text(x), encoded_text(y)]
                            !(begins_with(rest, encoded_text(x)) && begins_with(
                                rest.skip(encoded_text(x).len() as int),
                                encoded_text(y),
                            )) by {
                            if begins_with(rest, encoded_text(x)) {
                                lemma_text_is_read_back(rest, x, a@);
                            }
                        }
                    }
                    None
                },
                Some((b, next)) => Some((a, b, next)),
            }
        },
    }
}

fn read_two_texts_and_bytes(bytes: &[u8], at: usize) -> (read: Option<(String, String, Vec<u8>)>)
    requires
        at <= bytes@.len(),
    ensures
        match read {
            Some((a, b, c)) => begins_with(
                bytes@.skip(at as int),
                two_texts_and_bytes(a@, b@, c@),
            ),
            None => forall|a: Seq<char>, b: Seq<char>, c: Seq<u8>|
                !begins_with(bytes@.skip(at as int), #[trigger] two_texts_and_bytes(a, b, c)),
        },
{
    let ghost rest = bytes@.skip(at as int);
    let total: usize = bytes.len();
    match read_two_texts(bytes, at) {
        None => {
            proof {
                assert forall|x: Seq<char>, y: Seq<char>, z: Seq<u8>|
                    !begins_with(rest, #[trigger] two_texts_and_bytes(x, y, z)) by {
                    lemma_three_parts(rest, encoded_text(x), encoded_text(y), encoded_bytes(z));
                }
            }
            None
        },
        Some((a, b, next)) => {
            let ghost last = rest.skip(encoded_text(a@).len() as int).skip(
                encoded_text(b@).len() as int,
            );
            assert(bytes@.skip(next as int) =~= last);
            match read_bytes(bytes, next) {
                None => {
                    proof {
                        assert forall|x: Seq<char>, y: Seq<char>, z: Seq<u8>|
                            !begins_with(rest, #[trigger] two_texts_and_bytes(x, y, z)) by {
                            lemma_three_parts(
                                rest,
                                encoded_text(x),
                                encoded_text(y),
                                encoded_bytes(z),
                            );
                            if begins_with(rest, two_texts_and_bytes(x, y, z)) {
                                lemma_text_is_read_back(rest, x, a@);
                                lemma_text_is_read_back(
                                    rest.skip(encoded_text(x).len() as int),
                                    y,
                                    b@,
                                );
                            }
                        }
                    }
                    None
                },
                Some((c, _)) => {
                    proof {
                        lemma_three_parts(
                            rest,
                            encoded_text(a@),
                            encoded_text(b@),
                            encoded_bytes(c@),
                        );
                    }
                    Some((a, b, c))
                },
            }
        },
    }
}

fn read_three_texts(bytes: &[u8], at: usize) -> (read: Option<(String, String, String)>)
    requires
        at <= bytes@.len(),
    ensures
        match read {
            Some((a, b, c)) => begins_with(bytes@.skip(at as int), three_texts(a@, b@, c@)),
            None => forall|a: Seq<char>, b: Seq<char>, c: Seq<char>|
                !begins_with(bytes@.skip(at as int), #[trigger] three_texts(a, b, c)),
        },
{
    let ghost rest = bytes@.skip(at as int);
    let total: usize = bytes.len();
    match read_two_texts(bytes, at) {
        None => {
            proof {
                assert forall|x: Seq<char>, y: Seq<char>, z: Seq<char>|
                    !begins_with(rest, #[trigger] three_texts(x, y, z)) by {
                    lemma_three_parts(rest, encoded_text(x), encoded_text(y), encoded_text(z));
                }
            }
            None
        },
        Some((a, b, next)) => {
            let ghost last = rest.skip(encoded_text(a@).len() as int).skip(
                encoded_text(b@).len() as int,
            );
            assert(bytes@.skip(next as int) =~= last);
            match read_text(bytes, next) {
                None => {
                    proof {
                        assert forall|x: Seq<char>, y: Seq<char>, z: Seq<char>|
                            !begins_with(rest, #[trigger] three_texts(x, y, z)) by {
                            lemma_three_parts(
                                rest,
                                encoded_text(x),
                                encoded_text(y),
                                encoded_text(z),
                            );
                            if begins_with(rest, three_texts(x, y, z)) {
                                lemma_text_is_read_back(rest, x, a@);
                                lemma_text_is_read_back(
                                    rest.skip(encoded_text(x).len() as int),
                                    y,
                                    b@,
                                );
                            }
                        }
                    }
                    None
                },
                Some((c, _)) => {
                    proof {
                        lemma_three_parts(
                            rest,
                            encoded_text(a@),
                            encoded_text(b@),
                            encoded_text(c@),
                        );
                    }
                    Some((a, b, c))
                },
            }
        },
    }
}

fn read_text_and_number(bytes: &[u8], at: usize) -> (read: Option<(String, u64)>)
    requires
        at <= bytes@.len(),
    ensures
        match read {
            Some((a, b)) => begins_with(bytes@.skip(at as int), text_and_number(a@, b)),
            None => forall|a: Seq<char>, b: u64|
                !begins_with(bytes@.skip(at as int), #[trigger] text_and_number(a, b)),
        },
{
    let ghost rest = bytes@.skip(at as int);
    let total: usize = bytes.len();
    match read_text(bytes, at) {
        None => {
            proof {
                assert forall|x: Seq<char>, y: u64|
                    !begins_with(rest, #[trigger] text_and_number(x, y)) by {
                    lemma_begins_with_parts(rest, encoded_text(x), le_bytes(y as nat, 8));
                }
            }
            None
        },
        Some((a, next)) => {
            assert(bytes@.skip(next as int) =~= rest.skip(encoded_text(a@).len() as int));
            match read_u64(bytes, next) {
                None => {
                    proof {
                        assert forall|x: Seq<char>, y: u64|
                            !begins_with(rest, #[trigger] text_and_number(x, y)) by {
                            lemma_begins_with_parts(rest, encoded_text(x), le_bytes(y as nat, 8));
                            if begins_with(rest, text_and_number(x, y)) {
                                lemma_text_is_read_back(rest, x, a@);
                            }
                        }
                    }
                    None
                },
                Some(b) => {
                    proof {
                        lemma_begins_with_parts(rest, encoded_text(a@), le_bytes(b as nat, 8));
                    }
                    Some((a, b))
                },
            }
        },
    }
}

fn read_two_texts_and_number(bytes: &[u8], at: usize) -> (read: Option<(String, String, u64)>)
    requires
        at <= bytes@.len(),
    ensures
        match read {
            Some((a, b, c)) => begins_with(
                bytes@.skip(at as int),
                two_texts_and_number(a@, b@, c),
            ),
            None => forall|a: Seq<char>, b: Seq<char>, c: u64|
                !begins_with(bytes@.skip(at as int), #[trigger] two_texts_and_number(a, b, c)),
        },
{
    let ghost rest = bytes@.skip(at as int);
    let total: usize = bytes.len();
    match read_two_texts(bytes, at) {
        None => {
            proof {
                assert forall|x: Seq<char>, y: Seq<char>, z: u64|
                    !begins_with(rest, #[trigger] two_texts_and_number(x, y, z)) by {
                    lemma_three_parts(
                        rest,
                        encoded_text(x),
                        encoded_text(y),
                        le_bytes(z as nat, 8),
                    );
                }
            }
            None
        },
        Some((a, b, next)) => {
            let ghost last = rest.skip(encoded_text(a@).len() as int).skip(
                encoded_text(b@).len() as int,
            );
            assert(bytes@.skip(next as int) =~= last);
            match read_u64(bytes, next) {
                None => {
                    proof {
                        assert forall|x: Seq<char>, y: Seq<char>, z: u64|
                            !begins_with(rest, #[trigger] two_texts_and_number(x, y, z)) by {
                            lemma_three_parts(
                                rest,
                                encoded_text(x),
                                encoded_text(y),
                                le_bytes(z as nat, 8),
                            );
                            if begins_with(rest, two_texts_and_number(x, y, z)) {
                                lemma_text_is_read_back(rest, x, a@);
                                lemma_text_is_read_back(
                                    rest.skip(encoded_text(x).len() as int),
                                    y,
                                    b@,
                                );
                            }
                        }
                    }
                    None
                },
                Some(c) => {
                    proof {
                        lemma_three_parts(
                            rest,
                            encoded_text(a@),
                            encoded_text(b@),
                            le_bytes(c as nat, 8),
                        );
                    }
                    Some((a, b, c))
                },
            }
        },
    }
}

/// Reads what an event carries, for the kind that its number tells.
fn decode_fields(tag: u32, bytes: &[u8]) -> (event: Option<ConversationEvent>)
    requires
        4 <= bytes@.len(),
    ensures
        match event {
            Some(event) => event@.tag() == tag && begins_with(bytes@.skip(4), event@.fields()),
            None => forall|event: EventBody|
                event.tag() == tag ==> !begins_with(bytes@.skip(4), #[trigger] event.fields()),
        },
{
    if tag == 0 {
        match read_two_texts_and_bytes(bytes, 4) {
            Some((message_id, author_id, payload)) => Some(
                ConversationEvent::MessageCreated { message_id, author_id, payload },
            ),
            None => {
                proof {
                    assert forall|event: EventBody| event.tag() == tag implies !begins_with(
                        bytes@.skip(4),
                        #[trigger] event.fields(),
                    ) by {
                        if let EventBody::MessageCreated { message_id, author_id, payload } = event {
                            assert(event.fields() == two_texts_and_bytes(
                                message_id,
                                author_id,
                                payload,
                            ));
                        }
                    }
                }
                None
            },
        }
    } else if tag == 1 {
        match read_text(bytes, 4) {
            Some((message_id, _)) => Some(ConversationEvent::MessageDeleted { message_id }),
            None => None,
        }
    } else if tag == 2 {
        match read_three_texts(bytes, 4) {
            Some((message_id, reaction, actor_id)) => Some(
                ConversationEvent::ReactionAdded { message_id, reaction, actor_id },
            ),
            None => {
                proof {
                    assert forall|event: EventBody| event.tag() == tag implies !begins_with(
                        bytes@.skip(4),
                        #[trigger] event.fields(),
                    ) by {
                        if let EventBody::ReactionAdded { message_id, reaction, actor_id } = event {
                            assert(event.fields() == three_texts(message_id, reaction, actor_id));
                        }
                    }
                }
                None
            },
        }
    } else if tag == 3 {
        match read_text_and_number(bytes, 4) {
            Some((device_id, counter)) => Some(
                ConversationEvent::ReactionRemoved {
                    reaction_add: ReactionAddId { device_id, counter },
                },
            ),
            None => {
                proof {
                    assert forall|event: EventBody| event.tag() == tag implies !begins_with(
                        bytes@.skip(4),
                        #[trigger] event.fields(),
                    ) by {
                        if let EventBody::ReactionRemoved { device_id, counter } = event {
                            assert(event.fields() == text_and_number(device_id, counter));
                        }
                    }
                }
                None
            },
        }
    } else if tag == 4 {
        match read_two_texts_and_number(bytes, 4) {
            Some((actor_id, read_device_id, read_counter)) => Some(
                ConversationEvent::ReadAdvanced { actor_id, read_device_id, read_counter },
            ),
            None => {
                proof {
                    assert forall|event: EventBody| event.tag() == tag implies !begins_with(
                        bytes@.skip(4),
                        #[trigger] event.fields(),
                    ) by {
                        if let EventBody::ReadAdvanced { actor_id, read_device_id, read_counter } =
                            event {
                            assert(event.fields() == two_texts_and_number(
                                actor_id,
                                read_device_id,
                                read_counter,
                            ));
                        }
                    }
                }
                None
            },
        }
    } else {
        None
    }
}

/// Reads the event whose binary form a byte string begins with.
pub fn decode_event(bytes: &[u8]) -> (event: Option<ConversationEvent>)
    ensures
        match event {
            Some(event) => decoded(bytes@) == Some(event@),
            None => decoded(bytes@) is None,
        },
{
    let total: usize = bytes.len();
    match decode_u32(bytes) {
        Err(_) => {
            proof {
                assert forall|event: EventBody|
                    !begins_with(bytes@, #[trigger] event.encoded()) by {
                    lemma_begins_with_parts(
                        bytes@,
                        le_bytes(event.tag() as nat, 4),
                        event.fields(),
                    );
                }
            }
            None
        },
        Ok(tag) => {
            let found = decode_fields(tag, bytes);
            proof {
                match &found {
                    Some(event) => {
                        lemma_begins_with_parts(
                            bytes@,
                            le_bytes(event@.tag() as nat, 4),
                            event@.fields(),
                        );
                        law_event_is_read_back(event@, bytes@);
                    },
                    None => {
                        assert forall|event: EventBody|
                            !begins_with(bytes@, #[trigger] event.encoded()) by {
                            lemma_begins_with_parts(
                                bytes@,
                                le_bytes(event.tag() as nat, 4),
                                event.fields(),
                            );
                            if begins_with(bytes@, event.encoded()) {
                                lemma_fits(tag as nat);
                                lemma_fits(event.tag() as nat);
                                lemma_number_is_read_back(
                                    bytes@,
                                    tag as nat,
                                    event.tag() as nat,
                                    4,
                                );
                            }
                        }
                    },
                }
            }
            found
        },
    }
}

} // verus!
