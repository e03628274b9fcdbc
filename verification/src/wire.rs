//! The binary form in which values travel and are stored.

use crate::bytes::append_bytes;
use crate::codec::{
    begins_with, decode_key, decode_u32, decode_u8, encode_bytes, encode_key, encode_text,
    encode_u32, encode_u64, encode_u8, encoded_bytes, encoded_text, le_bytes,
    lemma_begins_with_parts, lemma_bytes_are_read_back, lemma_fits, lemma_number_is_read_back,
    lemma_text_is_read_back, read_bytes, read_text, read_u64,
};
use vstd::prelude::*;
use vstd::slice::slice_subrange;

verus! {

/// Values with a binary form that tells where it ends.
pub trait Wire: View + Sized {
    /// The contents that a value can have.
    spec fn valid(contents: Self::V) -> bool;

    /// The binary form of a value with these contents.
    spec fn encoded(contents: Self::V) -> Seq<u8>;

    proof fn contents_are_valid(&self)
        ensures
            Self::valid(self@),
    ;

    /// A byte string begins with the binary form of one value only.
    proof fn begins_with_one(bytes: Seq<u8>, a: Self::V, b: Self::V)
        requires
            Self::valid(a),
            Self::valid(b),
            begins_with(bytes, Self::encoded(a)),
            begins_with(bytes, Self::encoded(b)),
            bytes.len() <= u64::MAX,
        ensures
            a == b,
    ;

    /// Appends the binary form of the value.
    fn write(&self, bytes: &mut Vec<u8>)
        ensures
            final(bytes)@ == old(bytes)@ + Self::encoded(self@),
    ;

    /// Reads a value at a position, and gives the position behind it.
    fn read(bytes: &[u8], at: usize) -> (read: Option<(Self, usize)>)
        requires
            at <= bytes@.len(),
        ensures
            match read {
                Some((value, next)) => {
                    &&& begins_with(bytes@.skip(at as int), Self::encoded(value@))
                    &&& next == at + Self::encoded(value@).len()
                    &&& next <= bytes@.len()
                },
                None => forall|contents: Self::V|
                    Self::valid(contents) ==> !begins_with(
                        bytes@.skip(at as int),
                        #[trigger] Self::encoded(contents),
                    ),
            },
    ;
}

/// The contents of the value whose binary form a byte string begins with, whatever follows
/// it.
pub open spec fn decoding<T: Wire>(bytes: Seq<u8>) -> Option<T::V> {
    if exists|contents: T::V|
        T::valid(contents) && begins_with(bytes, #[trigger] T::encoded(contents)) {
        Some(
            choose|contents: T::V|
                T::valid(contents) && begins_with(bytes, #[trigger] T::encoded(contents)),
        )
    } else {
        None
    }
}

/// Whether bytes are the binary form of a value with these contents and nothing more. The
/// contents are read back from them.
pub open spec fn is_form_of<T: Wire>(bytes: Seq<u8>, contents: T::V) -> bool {
    &&& bytes == T::encoded(contents)
    &&& decoding::<T>(bytes) == Some(contents)
}

/// Every value is read back from its binary form, whatever follows it.
pub proof fn law_value_is_read_back<T: Wire>(contents: T::V, bytes: Seq<u8>)
    requires
        T::valid(contents),
        begins_with(bytes, T::encoded(contents)),
        bytes.len() <= u64::MAX,
    ensures
        decoding::<T>(bytes) == Some(contents),
{
    T::begins_with_one(bytes, contents, decoding::<T>(bytes)->0);
}

/// The binary form of a value. Reading it gives the value back.
pub fn encode<T: Wire>(value: &T) -> (bytes: Vec<u8>)
    ensures
        is_form_of::<T>(bytes@, value@),
{
    let mut bytes: Vec<u8> = Vec::new();
    value.write(&mut bytes);
    assert(bytes@ =~= T::encoded(value@));
    let len: usize = bytes.len();
    proof {
        value.contents_are_valid();
        assert(bytes@.take(bytes@.len() as int) =~= bytes@);
        law_value_is_read_back::<T>(value@, bytes@);
    }
    bytes
}

/// The value whose binary form the bytes begin with; what follows it is ignored.
pub fn decode<T: Wire>(bytes: &[u8]) -> (value: Option<T>)
    ensures
        match value {
            Some(value) => decoding::<T>(bytes@) == Some(value@),
            None => decoding::<T>(bytes@) is None,
        },
{
    assert(bytes@.skip(0) =~= bytes@);
    let len: usize = bytes.len();
    match T::read(bytes, 0) {
        Some((value, _)) => {
            proof {
                value.contents_are_valid();
                law_value_is_read_back::<T>(value@, bytes@);
            }
            Some(value)
        },
        None => None,
    }
}

impl Wire for u64 {
    open spec fn valid(contents: u64) -> bool {
        true
    }

    open spec fn encoded(contents: u64) -> Seq<u8> {
        le_bytes(contents as nat, 8)
    }

    proof fn contents_are_valid(&self) {
    }

    proof fn begins_with_one(bytes: Seq<u8>, a: u64, b: u64) {
        lemma_fits(a as nat);
        lemma_fits(b as nat);
        lemma_number_is_read_back(bytes, a as nat, b as nat, 8);
    }

    fn write(&self, bytes: &mut Vec<u8>) {
        if let Ok(part) = encode_u64(*self) {
            append_bytes(bytes, part.as_slice());
        }
    }

    fn read(bytes: &[u8], at: usize) -> (read: Option<(u64, usize)>) {
        let len: usize = bytes.len();
        match read_u64(bytes, at) {
            Some(number) => Some((number, at + 8)),
            None => None,
        }
    }
}

impl Wire for String {
    open spec fn valid(contents: Seq<char>) -> bool {
        true
    }

    open spec fn encoded(contents: Seq<char>) -> Seq<u8> {
        encoded_text(contents)
    }

    proof fn contents_are_valid(&self) {
    }

    proof fn begins_with_one(bytes: Seq<u8>, a: Seq<char>, b: Seq<char>) {
        lemma_text_is_read_back(bytes, a, b);
    }

    fn write(&self, bytes: &mut Vec<u8>) {
        if let Ok(part) = encode_text(self.as_str()) {
            append_bytes(bytes, part.as_slice());
        }
    }

    fn read(bytes: &[u8], at: usize) -> (read: Option<(String, usize)>) {
        read_text(bytes, at)
    }
}

impl Wire for Vec<u8> {
    open spec fn valid(contents: Seq<u8>) -> bool {
        true
    }

    open spec fn encoded(contents: Seq<u8>) -> Seq<u8> {
        encoded_bytes(contents)
    }

    proof fn contents_are_valid(&self) {
    }

    proof fn begins_with_one(bytes: Seq<u8>, a: Seq<u8>, b: Seq<u8>) {
        lemma_bytes_are_read_back(bytes, a, b);
    }

    fn write(&self, bytes: &mut Vec<u8>) {
        if let Ok(part) = encode_bytes(self.as_slice()) {
            append_bytes(bytes, part.as_slice());
        }
    }

    fn read(bytes: &[u8], at: usize) -> (read: Option<(Vec<u8>, usize)>) {
        read_bytes(bytes, at)
    }
}

impl Wire for [u8; 32] {
    open spec fn valid(contents: Seq<u8>) -> bool {
        contents.len() == 32
    }

    open spec fn encoded(contents: Seq<u8>) -> Seq<u8> {
        contents
    }

    proof fn contents_are_valid(&self) {
    }

    proof fn begins_with_one(bytes: Seq<u8>, a: Seq<u8>, b: Seq<u8>) {
    }

    fn write(&self, bytes: &mut Vec<u8>) {
        if let Ok(part) = encode_key(self) {
            append_bytes(bytes, part.as_slice());
        }
    }

    fn read(bytes: &[u8], at: usize) -> (read: Option<([u8; 32], usize)>) {
        let total: usize = bytes.len();
        let rest = slice_subrange(bytes, at, total);
        assert(rest@ =~= bytes@.skip(at as int));
        match decode_key(rest) {
            Ok(key) => Some((key, at + 32)),
            Err(_) => None,
        }
    }
}

impl<A: Wire, B: Wire> Wire for (A, B) {
    open spec fn valid(contents: (A::V, B::V)) -> bool {
        A::valid(contents.0) && B::valid(contents.1)
    }

    open spec fn encoded(contents: (A::V, B::V)) -> Seq<u8> {
        A::encoded(contents.0) + B::encoded(contents.1)
    }

    proof fn contents_are_valid(&self) {
        self.0.contents_are_valid();
        self.1.contents_are_valid();
    }

    proof fn begins_with_one(bytes: Seq<u8>, a: (A::V, B::V), b: (A::V, B::V)) {
        lemma_begins_with_parts(bytes, A::encoded(a.0), B::encoded(a.1));
        lemma_begins_with_parts(bytes, A::encoded(b.0), B::encoded(b.1));
        A::begins_with_one(bytes, a.0, b.0);
        B::begins_with_one(bytes.skip(A::encoded(a.0).len() as int), a.1, b.1);
    }

    fn write(&self, bytes: &mut Vec<u8>) {
        self.0.write(bytes);
        self.1.write(bytes);
        assert(bytes@ =~= old(bytes)@ + (A::encoded(self.0@) + B::encoded(self.1@)));
    }

    fn read(bytes: &[u8], at: usize) -> (read: Option<((A, B), usize)>) {
        let ghost rest = bytes@.skip(at as int);
        let len: usize = bytes.len();
        match A::read(bytes, at) {
            None => {
                proof {
                    assert forall|contents: (A::V, B::V)|
                        Self::valid(contents) implies !begins_with(
                        rest,
                        #[trigger] Self::encoded(contents),
                    ) by {
                        lemma_begins_with_parts(
                            rest,
                            A::encoded(contents.0),
                            B::encoded(contents.1),
                        );
                    }
                }
                None
            },
            Some((first, next)) => {
                assert(bytes@.skip(next as int) =~= rest.skip(A::encoded(first@).len() as int));
                match B::read(bytes, next) {
                    None => {
                        proof {
                            first.contents_are_valid();
                            assert forall|contents: (A::V, B::V)|
                                Self::valid(contents) implies !begins_with(
                                rest,
                                #[trigger] Self::encoded(contents),
                            ) by {
                                lemma_begins_with_parts(
                                    rest,
                                    A::encoded(contents.0),
                                    B::encoded(contents.1),
                                );
                                if begins_with(rest, A::encoded(contents.0)) {
                                    A::begins_with_one(rest, contents.0, first@);
                                }
                            }
                        }
                        None
                    },
                    Some((second, end)) => {
                        proof {
                            lemma_begins_with_parts(
                                rest,
                                A::encoded(first@),
                                B::encoded(second@),
                            );
                        }
                        Some(((first, second), end))
                    },
                }
            },
        }
    }
}

/// A value that may be absent.
pub struct Maybe<T: Wire> {
    pub value: Option<T>,
}

impl<T: Wire> View for Maybe<T> {
    type V = Option<T::V>;

    open spec fn view(&self) -> Option<T::V> {
        match self.value {
            Some(value) => Some(value@),
            None => None,
        }
    }
}

/// The binary form of a value that may be absent: behind a byte that says so.
pub open spec fn encoded_option<T: Wire>(contents: Option<T::V>) -> Seq<u8> {
    match contents {
        Some(contents) => seq![1u8] + T::encoded(contents),
        None => seq![0u8],
    }
}

/// Appends the binary form of a value that may be absent.
pub fn write_option<T: Wire>(value: &Option<T>, bytes: &mut Vec<u8>)
    ensures
        final(bytes)@ == old(bytes)@ + encoded_option::<T>(
            match *value {
                Some(value) => Some(value@),
                None => None,
            },
        ),
{
    match value {
        Some(value) => {
            if let Ok(part) = encode_u8(1) {
                append_bytes(bytes, part.as_slice());
            }
            value.write(bytes);
            assert(bytes@ =~= old(bytes)@ + (seq![1u8] + T::encoded(value@)));
        },
        None => {
            if let Ok(part) = encode_u8(0) {
                append_bytes(bytes, part.as_slice());
            }
        },
    }
}

proof fn lemma_option_tag<T: Wire>(bytes: Seq<u8>, contents: Option<T::V>)
    requires
        begins_with(bytes, encoded_option::<T>(contents)),
    ensures
        bytes.len() > 0,
        bytes[0] == if contents is Some {
            1u8
        } else {
            0u8
        },
        contents matches Some(contents) ==> begins_with(bytes.skip(1), T::encoded(contents)),
{
    let head = encoded_option::<T>(contents);
    assert(bytes.take(head.len() as int)[0] == head[0]);
    if let Some(contents) = contents {
        lemma_begins_with_parts(bytes, seq![1u8], T::encoded(contents));
    }
}

impl<T: Wire> Wire for Maybe<T> {
    open spec fn valid(contents: Option<T::V>) -> bool {
        contents matches Some(contents) ==> T::valid(contents)
    }

    open spec fn encoded(contents: Option<T::V>) -> Seq<u8> {
        encoded_option::<T>(contents)
    }

    proof fn contents_are_valid(&self) {
        if let Some(value) = self.value {
            value.contents_are_valid();
        }
    }

    proof fn begins_with_one(bytes: Seq<u8>, a: Option<T::V>, b: Option<T::V>) {
        lemma_option_tag::<T>(bytes, a);
        lemma_option_tag::<T>(bytes, b);
        match (a, b) {
            (Some(a), Some(b)) => {
                T::begins_with_one(bytes.skip(1), a, b);
            },
            _ => {},
        }
    }

    fn write(&self, bytes: &mut Vec<u8>) {
        write_option(&self.value, bytes);
    }

    fn read(bytes: &[u8], at: usize) -> (read: Option<(Maybe<T>, usize)>) {
        let total: usize = bytes.len();
        let rest = slice_subrange(bytes, at, total);
        assert(rest@ =~= bytes@.skip(at as int));
        proof {
            assert forall|contents: Option<T::V>|
                begins_with(rest@, #[trigger] encoded_option::<T>(contents)) implies rest@.len() > 0
                && rest@[0] == (if contents is Some {
                1u8
            } else {
                0u8
            }) && (contents matches Some(contents) ==> begins_with(
                rest@.skip(1),
                T::encoded(contents),
            )) by {
                lemma_option_tag::<T>(rest@, contents);
            }
        }
        match decode_u8(rest) {
            Err(_) => None,
            Ok(tag) => {
                assert(rest@.take(1)[0] == tag);
                if tag == 0 {
                    assert(rest@.take(1) =~= seq![0u8]);
                    return Some((Maybe { value: None }, at + 1));
                }
                if tag != 1 {
                    return None;
                }
                assert(bytes@.skip(at + 1) =~= rest@.skip(1));
                match T::read(bytes, at + 1) {
                    None => None,
                    Some((value, next)) => {
                        proof {
                            assert(rest@.take(1) =~= seq![1u8]);
                            lemma_begins_with_parts(rest@, seq![1u8], T::encoded(value@));
                        }
                        Some((Maybe { value: Some(value) }, next))
                    },
                }
            },
        }
    }
}

/// A list of values.
pub struct Listing<T: Wire> {
    pub items: Vec<T>,
}

impl<T: Wire> View for Listing<T> {
    type V = Seq<T::V>;

    open spec fn view(&self) -> Seq<T::V> {
        crate::sorted::views(self.items@)
    }
}

/// The binary forms of values, one after the other.
pub open spec fn encoded_items<T: Wire>(contents: Seq<T::V>) -> Seq<u8>
    decreases contents.len(),
{
    if contents.len() == 0 {
        Seq::empty()
    } else {
        T::encoded(contents[0]) + encoded_items::<T>(contents.drop_first())
    }
}

/// The binary form of a list: behind its length.
pub open spec fn encoded_list<T: Wire>(contents: Seq<T::V>) -> Seq<u8> {
    le_bytes(contents.len(), 8) + encoded_items::<T>(contents)
}

pub open spec fn all_valid<T: Wire>(contents: Seq<T::V>) -> bool {
    forall|i: int| 0 <= i < contents.len() ==> T::valid(#[trigger] contents[i])
}

proof fn lemma_items_push<T: Wire>(contents: Seq<T::V>, last: T::V)
    ensures
        encoded_items::<T>(contents.push(last)) == encoded_items::<T>(contents) + T::encoded(last),
    decreases contents.len(),
{
    let more = contents.push(last);
    if contents.len() == 0 {
        assert(more.drop_first() =~= Seq::<T::V>::empty());
        assert(encoded_items::<T>(more.drop_first()) =~= Seq::<u8>::empty());
        assert(encoded_items::<T>(more) =~= T::encoded(last));
        assert(encoded_items::<T>(contents) + T::encoded(last) =~= T::encoded(last));
    } else {
        lemma_items_push::<T>(contents.drop_first(), last);
        assert(more.drop_first() =~= contents.drop_first().push(last));
        assert(encoded_items::<T>(more) =~= encoded_items::<T>(contents) + T::encoded(last));
    }
}

proof fn lemma_items_are_one<T: Wire>(bytes: Seq<u8>, a: Seq<T::V>, b: Seq<T::V>)
    requires
        a.len() == b.len(),
        all_valid::<T>(a),
        all_valid::<T>(b),
        begins_with(bytes, encoded_items::<T>(a)),
        begins_with(bytes, encoded_items::<T>(b)),
        bytes.len() <= u64::MAX,
    ensures
        a == b,
    decreases a.len(),
{
    if a.len() == 0 {
        assert(a =~= b);
    } else {
        lemma_begins_with_parts(bytes, T::encoded(a[0]), encoded_items::<T>(a.drop_first()));
        lemma_begins_with_parts(bytes, T::encoded(b[0]), encoded_items::<T>(b.drop_first()));
        T::begins_with_one(bytes, a[0], b[0]);
        assert(all_valid::<T>(a.drop_first())) by {
            assert forall|i: int| 0 <= i < a.drop_first().len() implies T::valid(
                #[trigger] a.drop_first()[i],
            ) by {
                assert(T::valid(a[i + 1]));
            }
        }
        assert(all_valid::<T>(b.drop_first())) by {
            assert forall|i: int| 0 <= i < b.drop_first().len() implies T::valid(
                #[trigger] b.drop_first()[i],
            ) by {
                assert(T::valid(b[i + 1]));
            }
        }
        lemma_items_are_one::<T>(
            bytes.skip(T::encoded(a[0]).len() as int),
            a.drop_first(),
            b.drop_first(),
        );
        assert(a =~= seq![a[0]] + a.drop_first());
        assert(b =~= seq![b[0]] + b.drop_first());
    }
}

/// Appends the binary form of a list.
pub fn write_list<T: Wire>(items: &Vec<T>, bytes: &mut Vec<u8>)
    ensures
        final(bytes)@ == old(bytes)@ + encoded_list::<T>(crate::sorted::views(items@)),
{
    let ghost contents = crate::sorted::views(items@);
    let total: usize = items.len();
    if let Ok(part) = encode_u64(total as u64) {
        append_bytes(bytes, part.as_slice());
    }
    let ghost start = bytes@;
    let mut i: usize = 0;
    assert(bytes@ =~= start + encoded_items::<T>(contents.take(0)));
    while i < total
        invariant
            i <= total,
            total == items@.len(),
            contents == crate::sorted::views(items@),
            bytes@ == start + encoded_items::<T>(contents.take(i as int)),
        decreases total - i,
    {
        let ghost before = bytes@;
        items[i].write(bytes);
        proof {
            lemma_items_push::<T>(contents.take(i as int), contents[i as int]);
            assert(contents.take(i + 1) =~= contents.take(i as int).push(contents[i as int]));
            assert(bytes@ =~= start + encoded_items::<T>(contents.take(i + 1)));
        }
        i += 1;
    }
    assert(contents.take(i as int) =~= contents);
    assert(bytes@ =~= old(bytes)@ + encoded_list::<T>(contents));
}

proof fn lemma_items_split<T: Wire>(contents: Seq<T::V>, at: int)
    requires
        0 <= at <= contents.len(),
    ensures
        encoded_items::<T>(contents) == encoded_items::<T>(contents.take(at)) + encoded_items::<T>(
            contents.skip(at),
        ),
    decreases at,
{
    if at == 0 {
        assert(contents.take(0) =~= Seq::<T::V>::empty());
        assert(contents.skip(0) =~= contents);
        assert(encoded_items::<T>(contents.take(0)) + encoded_items::<T>(contents)
            =~= encoded_items::<T>(contents));
    } else {
        lemma_items_split::<T>(contents.drop_first(), at - 1);
        assert(contents.take(at).drop_first() =~= contents.drop_first().take(at - 1));
        assert(contents.drop_first().skip(at - 1) =~= contents.skip(at));
        assert(encoded_items::<T>(contents) =~= encoded_items::<T>(contents.take(at))
            + encoded_items::<T>(contents.skip(at)));
    }
}

/// Of a list of `count` values whose first `i` were read, no continuation fits when none
/// fits the next value.
proof fn lemma_no_list<T: Wire>(
    bytes: Seq<u8>,
    done: Seq<T::V>,
    contents: Seq<T::V>,
)
    requires
        all_valid::<T>(done),
        all_valid::<T>(contents),
        done.len() < contents.len(),
        bytes.len() <= u64::MAX,
        begins_with(bytes, encoded_items::<T>(done)),
        begins_with(bytes, encoded_items::<T>(contents)),
    ensures
        begins_with(
            bytes.skip(encoded_items::<T>(done).len() as int),
            T::encoded(contents[done.len() as int]),
        ),
{
    let at = done.len() as int;
    lemma_items_split::<T>(contents, at);
    lemma_begins_with_parts(
        bytes,
        encoded_items::<T>(contents.take(at)),
        encoded_items::<T>(contents.skip(at)),
    );
    assert(all_valid::<T>(contents.take(at))) by {
        assert forall|i: int| 0 <= i < at implies T::valid(#[trigger] contents.take(at)[i]) by {
            assert(T::valid(contents[i]));
        }
    }
    lemma_items_are_one::<T>(bytes, done, contents.take(at));
    lemma_begins_with_parts(
        bytes.skip(encoded_items::<T>(done).len() as int),
        T::encoded(contents[at]),
        encoded_items::<T>(contents.skip(at).drop_first()),
    );
}

impl<T: Wire> Wire for Listing<T> {
    open spec fn valid(contents: Seq<T::V>) -> bool {
        contents.len() <= u64::MAX && all_valid::<T>(contents)
    }

    open spec fn encoded(contents: Seq<T::V>) -> Seq<u8> {
        encoded_list::<T>(contents)
    }

    proof fn contents_are_valid(&self) {
        assert forall|i: int| 0 <= i < self@.len() implies T::valid(#[trigger] self@[i]) by {
            self.items@[i].contents_are_valid();
        }
        assert(self.items.len() == self.items@.len());
    }

    proof fn begins_with_one(bytes: Seq<u8>, a: Seq<T::V>, b: Seq<T::V>) {
        lemma_begins_with_parts(bytes, le_bytes(a.len(), 8), encoded_items::<T>(a));
        lemma_begins_with_parts(bytes, le_bytes(b.len(), 8), encoded_items::<T>(b));
        lemma_fits(a.len());
        lemma_fits(b.len());
        lemma_number_is_read_back(bytes, a.len(), b.len(), 8);
        lemma_items_are_one::<T>(bytes.skip(8), a, b);
    }

    fn write(&self, bytes: &mut Vec<u8>) {
        write_list(&self.items, bytes);
    }

    fn read(bytes: &[u8], at: usize) -> (read: Option<(Listing<T>, usize)>) {
        let ghost rest = bytes@.skip(at as int);
        let len: usize = bytes.len();
        let count: u64 = match read_u64(bytes, at) {
            Some(count) => count,
            None => {
                proof {
                    assert forall|contents: Seq<T::V>|
                        Self::valid(contents) implies !begins_with(
                        rest,
                        #[trigger] Self::encoded(contents),
                    ) by {
                        lemma_begins_with_parts(
                            rest,
                            le_bytes(contents.len(), 8),
                            encoded_items::<T>(contents),
                        );
                        let count = contents.len() as u64;
                        assert(!begins_with(rest, le_bytes(count as nat, 8)));
                    }
                }
                return None;
            },
        };
        let ghost body = rest.skip(8);
        proof {
            assert forall|contents: Seq<T::V>|
                Self::valid(contents) && begins_with(
                    rest,
                    #[trigger] Self::encoded(contents),
                ) implies contents.len() == count && begins_with(
                body,
                encoded_items::<T>(contents),
            ) by {
                lemma_begins_with_parts(
                    rest,
                    le_bytes(contents.len(), 8),
                    encoded_items::<T>(contents),
                );
                lemma_fits(contents.len());
                lemma_fits(count as nat);
                lemma_number_is_read_back(rest, contents.len(), count as nat, 8);
            }
        }
        let mut items: Vec<T> = Vec::new();
        let mut next: usize = at + 8;
        let mut i: u64 = 0;
        assert(bytes@.skip(next as int) =~= body);
        assert(body.take(0) =~= Seq::<u8>::empty());
        while i < count
            invariant
                i <= count,
                at <= len,
                len == bytes@.len(),
                rest == bytes@.skip(at as int),
                body == rest.skip(8),
                items@.len() == i,
                begins_with(body, encoded_items::<T>(crate::sorted::views(items@))),
                next == at + 8 + encoded_items::<T>(crate::sorted::views(items@)).len(),
                next <= len,
                forall|contents: Seq<T::V>|
                    Self::valid(contents) && begins_with(
                        rest,
                        #[trigger] Self::encoded(contents),
                    ) ==> contents.len() == count && begins_with(
                        body,
                        encoded_items::<T>(contents),
                    ),
            decreases count - i,
        {
            let ghost done = crate::sorted::views(items@);
            assert(bytes@.skip(next as int) =~= body.skip(encoded_items::<T>(done).len() as int));
            proof {
                assert forall|k: int| 0 <= k < done.len() implies T::valid(#[trigger] done[k]) by {
                    items@[k].contents_are_valid();
                }
            }
            match T::read(bytes, next) {
                None => {
                    proof {
                        assert forall|contents: Seq<T::V>|
                            Self::valid(contents) implies !begins_with(
                            rest,
                            #[trigger] Self::encoded(contents),
                        ) by {
                            if begins_with(rest, Self::encoded(contents)) {
                                lemma_no_list::<T>(body, done, contents);
                            }
                        }
                    }
                    return None;
                },
                Some((item, behind)) => {
                    proof {
                        lemma_items_push::<T>(done, item@);
                        lemma_begins_with_parts(body, encoded_items::<T>(done), T::encoded(item@));
                    }
                    items.push(item);
                    assert(crate::sorted::views(items@) =~= done.push(item@));
                    next = behind;
                },
            }
            i += 1;
        }
        let list = Listing { items };
        proof {
            lemma_begins_with_parts(rest, le_bytes(count as nat, 8), encoded_items::<T>(list@));
        }
        Some((list, next))
    }
}

/// Appends the number that tells the kinds of a value apart.
pub fn write_tag(tag: u32, bytes: &mut Vec<u8>)
    ensures
        final(bytes)@ == old(bytes)@ + le_bytes(tag as nat, 4),
{
    if let Ok(part) = encode_u32(tag) {
        append_bytes(bytes, part.as_slice());
    }
}

/// Reads the number that tells the kinds of a value apart.
pub fn read_tag(bytes: &[u8], at: usize) -> (tag: Option<u32>)
    requires
        at <= bytes@.len(),
    ensures
        match tag {
            Some(tag) => begins_with(bytes@.skip(at as int), le_bytes(tag as nat, 4)) && at + 4
                <= bytes@.len(),
            None => bytes@.len() < at + 4,
        },
{
    let total: usize = bytes.len();
    let rest = slice_subrange(bytes, at, total);
    assert(rest@ =~= bytes@.skip(at as int));
    match decode_u32(rest) {
        Ok(tag) => Some(tag),
        Err(_) => None,
    }
}

} // verus!
