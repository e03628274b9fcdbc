//! Plain text rules: ASCII case, white space, trimming, counting in decimal.

use crate::bytes::{copy_text, from_chars, to_chars};
use vstd::prelude::*;

verus! {

/// The lower-case form of an ASCII letter; any other character as it is.
pub open spec fn ascii_lower(c: char) -> char {
    if 'A' <= c <= 'Z' {
        ((c as u8) + 32) as char
    } else {
        c
    }
}

/// The upper-case form of an ASCII letter; any other character as it is.
pub open spec fn ascii_upper(c: char) -> char {
    if 'a' <= c <= 'z' {
        ((c as u8) - 32) as char
    } else {
        c
    }
}

/// A text with its ASCII letters in lower case.
pub open spec fn lower(text: Seq<char>) -> Seq<char> {
    text.map_values(|c: char| ascii_lower(c))
}

/// A text with its ASCII letters in upper case.
pub open spec fn upper(text: Seq<char>) -> Seq<char> {
    text.map_values(|c: char| ascii_upper(c))
}

/// The characters with the Unicode property White_Space.
pub open spec fn is_white_space(c: char) -> bool {
    let code = c as u32;
    ||| 0x9 <= code <= 0xd
    ||| code == 0x20
    ||| code == 0x85
    ||| code == 0xa0
    ||| code == 0x1680
    ||| 0x2000 <= code <= 0x200a
    ||| code == 0x2028
    ||| code == 0x2029
    ||| code == 0x202f
    ||| code == 0x205f
    ||| code == 0x3000
}

/// A text without its leading white space.
pub open spec fn trimmed_start(text: Seq<char>) -> Seq<char>
    decreases text.len(),
{
    if text.len() > 0 && is_white_space(text[0]) {
        trimmed_start(text.drop_first())
    } else {
        text
    }
}

/// A text without its trailing white space.
pub open spec fn trimmed_end(text: Seq<char>) -> Seq<char>
    decreases text.len(),
{
    if text.len() > 0 && is_white_space(text.last()) {
        trimmed_end(text.drop_last())
    } else {
        text
    }
}

/// A text without white space at either end.
pub open spec fn trimmed(text: Seq<char>) -> Seq<char> {
    trimmed_end(trimmed_start(text))
}

/// The decimal digit for a value below ten.
pub open spec fn digit(value: nat) -> char {
    (('0' as u8) + value) as char
}

/// A number in decimal.
pub open spec fn decimal(number: nat) -> Seq<char>
    decreases number,
{
    if number < 10 {
        seq![digit(number)]
    } else {
        decimal(number / 10).push(digit(number % 10))
    }
}

/// The first characters of a text, at most `limit` of them.
pub open spec fn first_chars(text: Seq<char>, limit: nat) -> Seq<char> {
    if text.len() <= limit {
        text
    } else {
        text.take(limit as int)
    }
}

/// Whether `part` stands somewhere in `text`.
pub open spec fn has_part(text: Seq<char>, part: Seq<char>) -> bool {
    exists|at: int|
        0 <= at && at + part.len() <= text.len() && #[trigger] text.subrange(at, at + part.len())
            == part
}

pub fn to_ascii_lower(c: char) -> (folded: char)
    ensures
        folded == ascii_lower(c),
{
    if 'A' <= c && c <= 'Z' {
        ((c as u8) + 32) as char
    } else {
        c
    }
}

pub fn to_ascii_upper(c: char) -> (folded: char)
    ensures
        folded == ascii_upper(c),
{
    if 'a' <= c && c <= 'z' {
        ((c as u8) - 32) as char
    } else {
        c
    }
}

pub fn is_whitespace(c: char) -> (answer: bool)
    ensures
        answer == is_white_space(c),
{
    let code: u32 = c as u32;
    (0x9 <= code && code <= 0xd) || code == 0x20 || code == 0x85 || code == 0xa0 || code == 0x1680
        || (0x2000 <= code && code <= 0x200a) || code == 0x2028 || code == 0x2029 || code == 0x202f
        || code == 0x205f || code == 0x3000
}

/// The text with its ASCII letters in lower case.
pub fn ascii_lowercase(text: &str) -> (folded: String)
    ensures
        folded@ == lower(text@),
{
    let chars = to_chars(text);
    let mut folded: Vec<char> = Vec::new();
    let mut i: usize = 0;
    while i < chars.len()
        invariant
            i <= chars@.len(),
            folded@ == lower(chars@.take(i as int)),
        decreases chars@.len() - i,
    {
        folded.push(to_ascii_lower(chars[i]));
        assert(folded@ =~= lower(chars@.take(i + 1)));
        i += 1;
    }
    assert(chars@.take(i as int) =~= chars@);
    from_chars(folded.as_slice())
}

/// The text with its ASCII letters in upper case.
pub fn ascii_uppercase(text: &str) -> (folded: String)
    ensures
        folded@ == upper(text@),
{
    let chars = to_chars(text);
    let mut folded: Vec<char> = Vec::new();
    let mut i: usize = 0;
    while i < chars.len()
        invariant
            i <= chars@.len(),
            folded@ == upper(chars@.take(i as int)),
        decreases chars@.len() - i,
    {
        folded.push(to_ascii_upper(chars[i]));
        assert(folded@ =~= upper(chars@.take(i + 1)));
        i += 1;
    }
    assert(chars@.take(i as int) =~= chars@);
    from_chars(folded.as_slice())
}

/// The text without white space at either end.
pub fn trim(text: &str) -> (rest: String)
    ensures
        rest@ == trimmed(text@),
{
    let chars = to_chars(text);
    let mut start: usize = 0;
    assert(chars@.skip(0) =~= chars@);
    while start < chars.len() && is_whitespace(chars[start])
        invariant
            start <= chars@.len(),
            trimmed_start(chars@) == trimmed_start(chars@.skip(start as int)),
        decreases chars@.len() - start,
    {
        assert(chars@.skip(start as int).drop_first() =~= chars@.skip(start + 1));
        start += 1;
    }
    let ghost rest = chars@.skip(start as int);
    assert(trimmed_start(chars@) == rest);
    let mut end: usize = chars.len();
    assert(chars@.subrange(start as int, end as int) =~= rest);
    while start < end && is_whitespace(chars[end - 1])
        invariant
            start <= end <= chars@.len(),
            trimmed_end(rest) == trimmed_end(chars@.subrange(start as int, end as int)),
        decreases end - start,
    {
        assert(chars@.subrange(start as int, end as int).drop_last() =~= chars@.subrange(
            start as int,
            end - 1,
        ));
        assert(chars@.subrange(start as int, end as int).last() == chars@[end - 1]);
        end -= 1;
    }
    if start < end {
        assert(chars@.subrange(start as int, end as int).last() == chars@[end - 1]);
    }
    from_chars(vstd::slice::slice_subrange(chars.as_slice(), start, end))
}

/// Whether two texts are equal up to the case of ASCII letters.
pub fn same_ignoring_ascii_case(a: &str, b: &str) -> (same: bool)
    ensures
        same == (lower(a@) == lower(b@)),
{
    crate::bytes::same_text(ascii_lowercase(a).as_str(), ascii_lowercase(b).as_str())
}

/// The number in decimal.
pub fn to_decimal(number: u64) -> (text: String)
    ensures
        text@ == decimal(number as nat),
    decreases number,
{
    if number < 10 {
        let mut text = String::new();
        text.push((48u8 + (number as u8)) as char);
        assert(text@ =~= decimal(number as nat));
        text
    } else {
        let mut text = to_decimal(number / 10);
        text.push((48u8 + ((number % 10) as u8)) as char);
        text
    }
}

/// The first characters of the text, at most `limit` of them.
pub fn take_chars(text: &str, limit: usize) -> (part: String)
    ensures
        part@ == first_chars(text@, limit as nat),
{
    let chars = to_chars(text);
    if chars.len() <= limit {
        return from_chars(chars.as_slice());
    }
    from_chars(vstd::slice::slice_subrange(chars.as_slice(), 0, limit))
}

/// The two texts one after the other.
pub fn joined(first: &str, second: &str) -> (text: String)
    ensures
        text@ == first@ + second@,
{
    let mut text = copy_text(first);
    text.push_str(second);
    text
}

/// Whether `part` stands somewhere in the text.
pub fn contains_text(text: &str, part: &str) -> (found: bool)
    ensures
        found == has_part(text@, part@),
{
    let chars = to_chars(text);
    let wanted = to_chars(part);
    if wanted.len() > chars.len() {
        return false;
    }
    let total: usize = chars.len();
    let last: usize = total - wanted.len();
    let mut at: usize = 0;
    loop
        invariant
            total == chars@.len(),
            chars@ == text@,
            wanted@ == part@,
            last == chars@.len() - wanted@.len(),
            at <= last,
            forall|k: int|
                0 <= k < at ==> #[trigger] chars@.subrange(k, k + wanted@.len()) != wanted@,
        decreases last - at,
    {
        let mut i: usize = 0;
        while i < wanted.len() && chars[at + i] == wanted[i]
            invariant
                total == chars@.len(),
                at + wanted@.len() <= total,
                i <= wanted@.len(),
                forall|j: int| 0 <= j < i ==> chars@[at + j] == wanted@[j],
            decreases wanted@.len() - i,
        {
            i += 1;
        }
        if i == wanted.len() {
            assert(chars@.subrange(at as int, at + wanted@.len()) =~= wanted@);
            return true;
        }
        assert(chars@.subrange(at as int, at + wanted@.len())[i as int] != wanted@[i as int]);
        if at == last {
            return false;
        }
        at += 1;
    }
}

} // verus!
