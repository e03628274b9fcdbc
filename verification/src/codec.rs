//! The binary form of plain values: little-endian numbers of fixed size, and texts and
//! byte strings behind their length.

use crate::bytes::utf8;
use vstd::prelude::*;

verus! {

/// The error of the bincode crate.
#[verifier::external_type_specification]
#[verifier::external_body]
pub struct ExErrorKind(bincode::ErrorKind);

/// The `index`-th byte of `number`, least significant first.
pub open spec fn le_byte(number: nat, index: nat) -> u8
    decreases index,
{
    if index == 0 {
        (number % 256) as u8
    } else {
        le_byte(number / 256, (index - 1) as nat)
    }
}

/// The first `width` bytes of `number`, least significant first.
pub open spec fn le_bytes(number: nat, width: nat) -> Seq<u8> {
    Seq::new(width, |i: int| le_byte(number, i as nat))
}

/// A byte string behind its length.
pub open spec fn encoded_bytes(bytes: Seq<u8>) -> Seq<u8> {
    le_bytes(bytes.len(), 8) + bytes
}

/// A text behind the length of its UTF-8 bytes.
pub open spec fn encoded_text(text: Seq<char>) -> Seq<u8> {
    encoded_bytes(utf8(text))
}

/// Whether `bytes` begins with `head`.
pub open spec fn begins_with(bytes: Seq<u8>, head: Seq<u8>) -> bool {
    head.len() <= bytes.len() && bytes.take(head.len() as int) == head
}

/// `bincode::serialize` of a `u32`: four little-endian bytes.
#[verifier::external_body]
pub(crate) fn encode_u32(number: u32) -> (encoded: Result<Vec<u8>, Box<bincode::ErrorKind>>)
    ensures
        encoded is Ok,
        encoded matches Ok(bytes) ==> bytes@ == le_bytes(number as nat, 4),
{
    bincode::serialize(&number)
}

/// `bincode::serialize` of a `u64`: eight little-endian bytes.
#[verifier::external_body]
pub(crate) fn encode_u64(number: u64) -> (encoded: Result<Vec<u8>, Box<bincode::ErrorKind>>)
    ensures
        encoded is Ok,
        encoded matches Ok(bytes) ==> bytes@ == le_bytes(number as nat, 8),
{
    bincode::serialize(&number)
}

/// `bincode::serialize` of a text: the length of its UTF-8 bytes as a `u64`, then they.
#[verifier::external_body]
pub(crate) fn encode_text(text: &str) -> (encoded: Result<Vec<u8>, Box<bincode::ErrorKind>>)
    ensures
        encoded is Ok,
        encoded matches Ok(bytes) ==> bytes@ == encoded_text(text@),
{
    bincode::serialize(text)
}

/// `bincode::serialize` of a byte string: its length as a `u64`, then its bytes.
#[verifier::external_body]
pub(crate) fn encode_bytes(bytes: &[u8]) -> (encoded: Result<Vec<u8>, Box<bincode::ErrorKind>>)
    ensures
        encoded is Ok,
        encoded matches Ok(written) ==> written@ == encoded_bytes(bytes@),
{
    bincode::serialize(bytes)
}

/// `bincode::serialize` of a `u8`: the byte itself.
#[verifier::external_body]
pub(crate) fn encode_u8(number: u8) -> (encoded: Result<Vec<u8>, Box<bincode::ErrorKind>>)
    ensures
        encoded is Ok,
        encoded matches Ok(bytes) ==> bytes@ == seq![number],
{
    bincode::serialize(&number)
}

/// `bincode::serialize` of an array of thirty-two bytes: the bytes themselves.
#[verifier::external_body]
pub(crate) fn encode_key(key: &[u8; 32]) -> (encoded: Result<Vec<u8>, Box<bincode::ErrorKind>>)
    ensures
        encoded is Ok,
        encoded matches Ok(bytes) ==> bytes@ == key@,
{
    bincode::serialize(key)
}

/// `bincode::deserialize` of a `u8`: the first byte, an error where there is none.
#[verifier::external_body]
pub(crate) fn decode_u8(bytes: &[u8]) -> (decoded: Result<u8, Box<bincode::ErrorKind>>)
    ensures
        decoded matches Ok(number) ==> begins_with(bytes@, seq![number]),
        decoded is Err ==> bytes@.len() < 1,
{
    bincode::deserialize(bytes)
}

/// `bincode::deserialize` of an array of thirty-two bytes: the first ones, an error where
/// there are fewer.
#[verifier::external_body]
pub(crate) fn decode_key(bytes: &[u8]) -> (decoded: Result<[u8; 32], Box<bincode::ErrorKind>>)
    ensures
        decoded matches Ok(key) ==> begins_with(bytes@, key@),
        decoded is Err ==> bytes@.len() < 32,
{
    bincode::deserialize(bytes)
}

/// `bincode::deserialize` of a `u32`: the number whose four bytes the input begins with,
/// an error of a shorter input.
#[verifier::external_body]
pub(crate) fn decode_u32(bytes: &[u8]) -> (decoded: Result<u32, Box<bincode::ErrorKind>>)
    ensures
        decoded matches Ok(number) ==> begins_with(bytes@, le_bytes(number as nat, 4)),
        decoded is Err ==> bytes@.len() < 4,
{
    bincode::deserialize(bytes)
}

/// `bincode::deserialize` of a `u64`: the number whose eight bytes the input begins with,
/// an error of a shorter input.
#[verifier::external_body]
pub(crate) fn decode_u64(bytes: &[u8]) -> (decoded: Result<u64, Box<bincode::ErrorKind>>)
    ensures
        decoded matches Ok(number) ==> begins_with(bytes@, le_bytes(number as nat, 8)),
        decoded is Err ==> bytes@.len() < 8,
{
    bincode::deserialize(bytes)
}

/// `bincode::deserialize` of a `String`: the text whose binary form the input begins
/// with, an error where it begins with that of no text.
#[verifier::external_body]
pub(crate) fn decode_text(bytes: &[u8]) -> (decoded: Result<String, Box<bincode::ErrorKind>>)
    ensures
        decoded matches Ok(text) ==> begins_with(bytes@, encoded_text(text@)),
        decoded is Err ==> forall|text: Seq<char>|
            !begins_with(bytes@, #[trigger] encoded_text(text)),
{
    bincode::deserialize(bytes)
}

/// `bincode::deserialize` of a `Vec<u8>`: the byte string whose binary form the input
/// begins with, an error where it begins with that of none.
#[verifier::external_body]
pub(crate) fn decode_bytes(bytes: &[u8]) -> (decoded: Result<Vec<u8>, Box<bincode::ErrorKind>>)
    ensures
        decoded matches Ok(read) ==> begins_with(bytes@, encoded_bytes(read@)),
        decoded is Err ==> forall|read: Seq<u8>|
            !begins_with(bytes@, #[trigger] encoded_bytes(read)),
{
    bincode::deserialize(bytes)
}

/// Whether a number fits `width` bytes.
pub open spec fn fits(number: nat, width: nat) -> bool
    decreases width,
{
    if width == 0 {
        number == 0
    } else {
        fits(number / 256, (width - 1) as nat)
    }
}

proof fn lemma_le_bytes_injective(a: nat, b: nat, width: nat)
    requires
        le_bytes(a, width) == le_bytes(b, width),
        fits(a, width),
        fits(b, width),
    ensures
        a == b,
    decreases width,
{
    if width > 0 {
        let rest = (width - 1) as nat;
        assert(le_bytes(a, width)[0] == le_bytes(b, width)[0]);
        assert(le_bytes(a, width)[0] == le_byte(a, 0));
        assert(le_bytes(b, width)[0] == le_byte(b, 0));
        assert(le_byte(a, 0) == (a % 256) as u8 && le_byte(b, 0) == (b % 256) as u8);
        assert(a % 256 == b % 256);
        assert forall|i: int| 0 <= i < rest implies #[trigger] le_bytes(a / 256, rest)[i]
            == le_bytes(b / 256, rest)[i] by {
            assert(le_bytes(a, width)[i + 1] == le_bytes(b, width)[i + 1]);
            assert(le_bytes(a, width)[i + 1] == le_byte(a, (i + 1) as nat));
            assert(le_bytes(b, width)[i + 1] == le_byte(b, (i + 1) as nat));
            assert(le_byte(a, (i + 1) as nat) == le_byte(a / 256, i as nat));
            assert(le_byte(b, (i + 1) as nat) == le_byte(b / 256, i as nat));
            assert(le_bytes(a / 256, rest)[i] == le_byte(a / 256, i as nat));
            assert(le_bytes(b / 256, rest)[i] == le_byte(b / 256, i as nat));
        }
        assert(le_bytes(a / 256, rest) =~= le_bytes(b / 256, rest));
        lemma_le_bytes_injective(a / 256, b / 256, rest);
    }
}

/// A number below two to the sixty-fourth fits eight bytes, one below two to the
/// thirty-second fits four.
pub proof fn lemma_fits(number: nat)
    ensures
        number <= u64::MAX ==> fits(number, 8),
        number <= u32::MAX ==> fits(number, 4),
{
    reveal_with_fuel(fits, 9);
    if number <= u64::MAX {
        let n1 = number / 256;
        let n2 = n1 / 256;
        let n3 = n2 / 256;
        let n4 = n3 / 256;
        let n5 = n4 / 256;
        let n6 = n5 / 256;
        let n7 = n6 / 256;
        assert(n7 / 256 == 0);
    }
}

/// A byte string begins with two parts where it begins with the first and, behind it,
/// with the second.
pub proof fn lemma_begins_with_parts(bytes: Seq<u8>, first: Seq<u8>, second: Seq<u8>)
    ensures
        begins_with(bytes, first + second) <==> begins_with(bytes, first) && begins_with(
            bytes.skip(first.len() as int),
            second,
        ),
{
    let both = first + second;
    if begins_with(bytes, both) {
        assert(bytes.take(first.len() as int) =~= bytes.take(both.len() as int).take(
            first.len() as int,
        ));
        assert(both.take(first.len() as int) =~= first);
        assert(bytes.skip(first.len() as int).take(second.len() as int) =~= bytes.take(
            both.len() as int,
        ).skip(first.len() as int));
        assert(both.skip(first.len() as int) =~= second);
    }
    if begins_with(bytes, first) && begins_with(bytes.skip(first.len() as int), second) {
        assert(bytes.take(both.len() as int) =~= bytes.take(first.len() as int) + bytes.skip(
            first.len() as int,
        ).take(second.len() as int));
    }
}

/// A byte string begins with the fixed-size form of one number only.
pub proof fn lemma_number_is_read_back(bytes: Seq<u8>, a: nat, b: nat, width: nat)
    requires
        begins_with(bytes, le_bytes(a, width)),
        begins_with(bytes, le_bytes(b, width)),
        fits(a, width),
        fits(b, width),
    ensures
        a == b,
{
    lemma_le_bytes_injective(a, b, width);
}

/// A byte string begins with the binary form of one byte string only.
pub proof fn lemma_bytes_are_read_back(bytes: Seq<u8>, a: Seq<u8>, b: Seq<u8>)
    requires
        begins_with(bytes, encoded_bytes(a)),
        begins_with(bytes, encoded_bytes(b)),
        bytes.len() <= u64::MAX,
    ensures
        a == b,
{
    let head_a = encoded_bytes(a);
    let head_b = encoded_bytes(b);
    assert(bytes.take(head_a.len() as int).take(8) =~= le_bytes(a.len(), 8));
    assert(bytes.take(head_b.len() as int).take(8) =~= le_bytes(b.len(), 8));
    assert(bytes.take(head_a.len() as int).take(8) =~= bytes.take(8));
    assert(bytes.take(head_b.len() as int).take(8) =~= bytes.take(8));
    lemma_fits(a.len());
    lemma_fits(b.len());
    lemma_le_bytes_injective(a.len(), b.len(), 8);
    assert(head_a == head_b);
    assert(a =~= head_a.skip(8));
    assert(b =~= head_b.skip(8));
}

/// A byte string begins with the binary form of one text only.
pub proof fn lemma_text_is_read_back(bytes: Seq<u8>, a: Seq<char>, b: Seq<char>)
    requires
        begins_with(bytes, encoded_text(a)),
        begins_with(bytes, encoded_text(b)),
        bytes.len() <= u64::MAX,
    ensures
        a == b,
{
    lemma_bytes_are_read_back(bytes, utf8(a), utf8(b));
    vstd::utf8::encode_utf8_decode_utf8(a);
    vstd::utf8::encode_utf8_decode_utf8(b);
}

/// Reads a text at a position, and gives the position behind it.
pub fn read_text(bytes: &[u8], at: usize) -> (read: Option<(String, usize)>)
    requires
        at <= bytes@.len(),
    ensures
        match read {
            Some((text, next)) => {
                &&& begins_with(bytes@.skip(at as int), encoded_text(text@))
                &&& next == at + encoded_text(text@).len()
                &&& next <= bytes@.len()
            },
            None => forall|text: Seq<char>|
                !begins_with(bytes@.skip(at as int), #[trigger] encoded_text(text)),
        },
{
    let total: usize = bytes.len();
    let rest = vstd::slice::slice_subrange(bytes, at, total);
    assert(rest@ =~= bytes@.skip(at as int));
    match decode_text(rest) {
        Ok(text) => {
            let len: usize = text.as_str().len();
            Some((text, at + 8 + len))
        },
        Err(_) => None,
    }
}

/// Reads a byte string at a position, and gives the position behind it.
pub fn read_bytes(bytes: &[u8], at: usize) -> (read: Option<(Vec<u8>, usize)>)
    requires
        at <= bytes@.len(),
    ensures
        match read {
            Some((part, next)) => {
                &&& begins_with(bytes@.skip(at as int), encoded_bytes(part@))
                &&& next == at + encoded_bytes(part@).len()
                &&& next <= bytes@.len()
            },
            None => forall|part: Seq<u8>|
                !begins_with(bytes@.skip(at as int), #[trigger] encoded_bytes(part)),
        },
{
    let total: usize = bytes.len();
    let rest = vstd::slice::slice_subrange(bytes, at, total);
    assert(rest@ =~= bytes@.skip(at as int));
    match decode_bytes(rest) {
        Ok(part) => {
            let len: usize = part.len();
            Some((part, at + 8 + len))
        },
        Err(_) => None,
    }
}

/// Reads a number of eight bytes at a position.
pub fn read_u64(bytes: &[u8], at: usize) -> (read: Option<u64>)
    requires
        at <= bytes@.len(),
    ensures
        match read {
            Some(number) => begins_with(bytes@.skip(at as int), le_bytes(number as nat, 8)),
            None => forall|number: u64|
                !begins_with(bytes@.skip(at as int), #[trigger] le_bytes(number as nat, 8)),
        },
{
    let total: usize = bytes.len();
    let rest = vstd::slice::slice_subrange(bytes, at, total);
    assert(rest@ =~= bytes@.skip(at as int));
    match decode_u64(rest) {
        Ok(number) => Some(number),
        Err(_) => None,
    }
}

} // verus!
