//! Byte strings and text: encodings, comparisons and the character classes the
//! messenger relies on.

use vstd::prelude::*;
use vstd::utf8::encode_utf8;

verus! {

/// The `index`-th of the eight big-endian bytes of `number`.
pub open spec fn be_byte(number: u64, index: int) -> u8 {
    if index == 0 {
        ((number / 0x100_0000_0000_0000) % 0x100) as u8
    } else if index == 1 {
        ((number / 0x1_0000_0000_0000) % 0x100) as u8
    } else if index == 2 {
        ((number / 0x100_0000_0000) % 0x100) as u8
    } else if index == 3 {
        ((number / 0x1_0000_0000) % 0x100) as u8
    } else if index == 4 {
        ((number / 0x100_0000) % 0x100) as u8
    } else if index == 5 {
        ((number / 0x1_0000) % 0x100) as u8
    } else if index == 6 {
        ((number / 0x100) % 0x100) as u8
    } else {
        (number % 0x100) as u8
    }
}

/// The eight bytes of `number`, most significant first.
pub open spec fn be_bytes(number: u64) -> Seq<u8> {
    Seq::new(8, |i: int| be_byte(number, i))
}

/// Writes `number` as eight bytes, most significant first.
pub fn to_be_bytes(number: u64) -> (bytes: [u8; 8])
    ensures
        bytes@ == be_bytes(number),
{
    let bytes: [u8; 8] = [
        ((number / 0x100_0000_0000_0000) % 0x100) as u8,
        ((number / 0x1_0000_0000_0000) % 0x100) as u8,
        ((number / 0x100_0000_0000) % 0x100) as u8,
        ((number / 0x1_0000_0000) % 0x100) as u8,
        ((number / 0x100_0000) % 0x100) as u8,
        ((number / 0x1_0000) % 0x100) as u8,
        ((number / 0x100) % 0x100) as u8,
        (number % 0x100) as u8,
    ];
    assert(bytes@ =~= be_bytes(number));
    bytes
}

/// Appends a copy of `tail` to `bytes`.
pub fn append_bytes(bytes: &mut Vec<u8>, tail: &[u8])
    ensures
        final(bytes)@ == old(bytes)@ + tail@,
{
    bytes.extend_from_slice(tail);
    assert(bytes@ =~= old(bytes)@ + tail@);
}

/// A copy of `bytes` as a vector.
pub fn copy_bytes(bytes: &[u8]) -> (copy: Vec<u8>)
    ensures
        copy@ == bytes@,
{
    let mut copy: Vec<u8> = Vec::new();
    append_bytes(&mut copy, bytes);
    assert(copy@ =~= bytes@);
    copy
}

/// Whether two byte strings are equal.
pub fn same_bytes(a: &[u8], b: &[u8]) -> (same: bool)
    ensures
        same == (a@ == b@),
{
    if a.len() != b.len() {
        return false;
    }
    let mut i: usize = 0;
    while i < a.len()
        invariant
            i <= a@.len(),
            a@.len() == b@.len(),
            forall|j: int| 0 <= j < i ==> a@[j] == b@[j],
        decreases a@.len() - i,
    {
        if a[i] != b[i] {
            return false;
        }
        i += 1;
    }
    assert(a@ =~= b@);
    true
}

/// Thirty-two consecutive bytes of `source`, from `start` on.
pub fn take_32(source: &[u8], start: usize) -> (part: [u8; 32])
    requires
        start + 32 <= source@.len(),
    ensures
        part@ == source@.subrange(start as int, start + 32),
{
    let mut part: [u8; 32] = [0u8; 32];
    let len: usize = source.len();
    let mut i: usize = 0;
    while i < 32
        invariant
            i <= 32,
            len == source@.len(),
            start + 32 <= len,
            part@.len() == 32,
            forall|j: int| 0 <= j < i ==> part@[j] == source@[start + j],
        decreases 32 - i,
    {
        part[i] = source[start + i];
        i += 1;
    }
    assert(part@ =~= source@.subrange(start as int, start + 32));
    part
}

/// The lower-case hexadecimal digit for a value below sixteen.
pub open spec fn hex_digit(value: u8) -> char {
    if value < 10 {
        (('0' as u8) + value) as char
    } else {
        (('a' as u8) + (value - 10)) as char
    }
}

/// The two lower-case hexadecimal digits of each byte, in order.
pub open spec fn hex(bytes: Seq<u8>) -> Seq<char> {
    Seq::new(
        2 * bytes.len(),
        |i: int| if i % 2 == 0 {
            hex_digit((bytes[i / 2] / 16) as u8)
        } else {
            hex_digit((bytes[i / 2] % 16) as u8)
        },
    )
}

fn hex_char(value: u8) -> (digit: char)
    requires
        value < 16,
    ensures
        digit == hex_digit(value),
{
    if value < 10 {
        (48u8 + value) as char
    } else {
        (97u8 + (value - 10)) as char
    }
}

/// `String::push` of the standard library: the character is appended.
pub assume_specification[ String::push ](text: &mut String, c: char)
    ensures
        final(text)@ == old(text)@.push(c),
;

/// `String::push_str` of the standard library: the text is appended.
pub assume_specification[ String::push_str ](text: &mut String, tail: &str)
    ensures
        final(text)@ == old(text)@ + tail@,
;

/// Encodes bytes as lower-case hexadecimal text.
pub fn hex_encode(bytes: &[u8]) -> (text: String)
    ensures
        text@ == hex(bytes@),
{
    let mut text = String::new();
    let mut i: usize = 0;
    while i < bytes.len()
        invariant
            i <= bytes@.len(),
            text@ == hex(bytes@.take(i as int)),
        decreases bytes@.len() - i,
    {
        let ghost before = text@;
        text.push(hex_char(bytes[i] / 16));
        text.push(hex_char(bytes[i] % 16));
        assert(text@ =~= hex(bytes@.take(i + 1)));
        i += 1;
    }
    assert(bytes@.take(i as int) =~= bytes@);
    text
}

/// Whether two texts are equal.
pub fn same_text(a: &str, b: &str) -> (same: bool)
    ensures
        same == (a@ == b@),
{
    let same = same_bytes(a.as_bytes(), b.as_bytes());
    proof {
        vstd::utf8::encode_utf8_decode_utf8(a@);
        vstd::utf8::encode_utf8_decode_utf8(b@);
    }
    same
}

/// A copy of `text`.
pub fn copy_text(text: &str) -> (copy: String)
    ensures
        copy@ == text@,
{
    text.to_owned()
}

/// The characters of `text`, in order.
pub fn to_chars(text: &str) -> (chars: Vec<char>)
    ensures
        chars@ == text@,
{
    let mut chars: Vec<char> = Vec::new();
    for c in it: text.chars()
        invariant
            chars@.len() == it.index(),
            forall|i: int| 0 <= i < chars@.len() ==> chars@[i] == it.seq()[i],
            it.seq() == text@,
    {
        chars.push(c);
    }
    assert(chars@ =~= text@);
    chars
}

/// The text made of `chars`.
pub fn from_chars(chars: &[char]) -> (text: String)
    ensures
        text@ == chars@,
{
    let mut text = String::new();
    let mut i: usize = 0;
    while i < chars.len()
        invariant
            i <= chars@.len(),
            text@ == chars@.take(i as int),
        decreases chars@.len() - i,
    {
        text.push(chars[i]);
        assert(text@ =~= chars@.take(i + 1));
        i += 1;
    }
    assert(chars@.take(i as int) =~= chars@);
    text
}

/// The bytes of a text in UTF-8.
pub open spec fn utf8(text: Seq<char>) -> Seq<u8> {
    encode_utf8(text)
}

} // verus!
