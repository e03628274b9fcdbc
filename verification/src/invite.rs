//! Invite codes, the digests they are registered under, and safety numbers.

use crate::bytes::{append_bytes, from_chars, hex, hex_encode, to_chars, utf8};
use crate::primitives::{random_bytes, sha256, sha256_digest};
use crate::sorted::{bytes_before, is_bytes_before, lemma_bytes_order};
use crate::text::{
    ascii_upper, ascii_uppercase, is_white_space, is_whitespace, to_ascii_upper, upper,
};
use vstd::prelude::*;
use vstd::slice::slice_subrange;
use vstd::utf8::{is_ascii_chars, is_ascii_chars_encode_utf8};

verus! {

/// The characters of an invite code.
pub const INVITE_CODE_LEN: usize = 6;

/// How long an invite can be joined.
pub const INVITE_TTL_SECS: u64 = 300;

/// The letters and digits that are not easily taken for one another.
pub const INVITE_CODE_ALPHABET: &'static str = "ABCDEFGHJKLMNPQRSTUVWXYZ23456789";

pub const INVITE_CODE_CONTEXT: &'static str = "ciphermesh.invite-code.v1";

pub const SAFETY_NUMBER_CONTEXT: &'static str = "ciphermesh.safety-number.v1";

/// Why a text is no invite code.
#[derive(Debug, Clone, Copy, PartialEq, Eq, Structural)]
pub enum InviteCodeError {
    WrongLength,
    UnsupportedCharacters,
}

impl InviteCodeError {
    pub open spec fn name(self) -> Seq<char> {
        match self {
            InviteCodeError::WrongLength => "invite code must be 6 characters"@,
            InviteCodeError::UnsupportedCharacters =>
                "invite code contains unsupported characters"@,
        }
    }

    /// The sentence shown to the user.
    pub fn message(&self) -> (text: &'static str)
        ensures
            text@ == self.name(),
    {
        match self {
            InviteCodeError::WrongLength => "invite code must be 6 characters",
            InviteCodeError::UnsupportedCharacters => "invite code contains unsupported characters",
        }
    }
}

/// Why a text is no hexadecimal byte string.
#[derive(Debug, Clone, Copy, PartialEq, Eq, Structural)]
pub enum HexError {
    OddLength,
    /// Two bytes in the place of digits that are not a text of their own.
    NotText,
    NotDigits,
}

/// Whether `c` may stand in an invite code.
pub open spec fn is_code_char(c: char) -> bool {
    INVITE_CODE_ALPHABET@.contains(c)
}

/// The character of the alphabet that a random byte selects.
pub open spec fn code_char(random: u8) -> char {
    INVITE_CODE_ALPHABET@[random as int % 32]
}

/// The code that random bytes select.
pub open spec fn code_of(random: Seq<u8>) -> Seq<char> {
    random.map_values(|byte: u8| code_char(byte))
}

/// What a user may put into a code for legibility.
pub open spec fn is_filler(c: char) -> bool {
    is_white_space(c) || c == '-'
}

/// A text without fillers, its ASCII letters in upper case.
pub open spec fn code_letters(text: Seq<char>) -> Seq<char>
    decreases text.len(),
{
    if text.len() == 0 {
        Seq::empty()
    } else if is_filler(text.last()) {
        code_letters(text.drop_last())
    } else {
        code_letters(text.drop_last()).push(ascii_upper(text.last()))
    }
}

/// Whether a text is an invite code in its normal form.
pub open spec fn is_code(text: Seq<char>) -> bool {
    &&& utf8(text).len() == INVITE_CODE_LEN
    &&& forall|i: int| 0 <= i < text.len() ==> is_code_char(#[trigger] text[i])
}

/// The name under which an invite is registered.
pub open spec fn code_hash(code: Seq<char>) -> Seq<char> {
    hex(sha256(utf8(INVITE_CODE_CONTEXT@) + utf8(upper(code))).take(16))
}

/// The number two users compare to see that they hold each other's identity key.
pub open spec fn safety_number_of(low: Seq<u8>, high: Seq<u8>) -> Seq<char> {
    hex(sha256(utf8(SAFETY_NUMBER_CONTEXT@) + low + high).take(20))
}

/// The safety number of two identity keys, the smaller first.
pub open spec fn safety_number_between(first: Seq<u8>, second: Seq<u8>) -> Seq<char> {
    if bytes_before(second, first) {
        safety_number_of(second, first)
    } else {
        safety_number_of(first, second)
    }
}

/// The value of a hexadecimal digit, in either case.
pub open spec fn digit_value(byte: u8) -> Option<u8> {
    if 48 <= byte <= 57 {
        Some((byte - 48) as u8)
    } else if 65 <= byte <= 70 {
        Some((byte - 55) as u8)
    } else if 97 <= byte <= 102 {
        Some((byte - 87) as u8)
    } else {
        None
    }
}

/// Whether two bytes are a text: two ASCII characters or one longer character.
pub open spec fn is_text_pair(first: u8, second: u8) -> bool {
    ||| first < 0x80 && second < 0x80
    ||| 0xc2 <= first <= 0xdf && 0x80 <= second <= 0xbf
}

/// The byte that two digits stand for; a sign may take the place of the first.
pub open spec fn pair_value(first: u8, second: u8) -> Result<u8, HexError> {
    if !is_text_pair(first, second) {
        Err(HexError::NotText)
    } else if first == 43 && digit_value(second) is Some {
        Ok(digit_value(second)->0)
    } else if digit_value(first) is Some && digit_value(second) is Some {
        Ok((digit_value(first)->0 * 16 + digit_value(second)->0) as u8)
    } else {
        Err(HexError::NotDigits)
    }
}

/// What the digits in `text` stand for, pair by pair; the first pair that is none decides.
pub open spec fn unhex(text: Seq<u8>) -> Result<Seq<u8>, HexError>
    decreases text.len(),
{
    if text.len() % 2 != 0 {
        Err(HexError::OddLength)
    } else if text.len() == 0 {
        Ok(Seq::empty())
    } else {
        let before = text.take(text.len() - 2);
        match (unhex(before), pair_value(text[text.len() - 2], text[text.len() - 1])) {
            (Err(error), _) => Err(error),
            (Ok(_), Err(error)) => Err(error),
            (Ok(bytes), Ok(byte)) => Ok(bytes.push(byte)),
        }
    }
}

proof fn lemma_alphabet()
    ensures
        INVITE_CODE_ALPHABET@.len() == 32,
        forall|c: char| #[trigger] is_code_char(c) ==> {
            &&& (c as u32) < 128
            &&& !is_filler(c)
            &&& ascii_upper(c) == c
        },
{
    reveal_strlit("ABCDEFGHJKLMNPQRSTUVWXYZ23456789");
    assert forall|c: char| #[trigger] is_code_char(c) implies (c as u32) < 128 && !is_filler(c)
        && ascii_upper(c) == c by {
        let i = choose|i: int|
            0 <= i < INVITE_CODE_ALPHABET@.len() && #[trigger] INVITE_CODE_ALPHABET@[i] == c;
        assert(0 <= i < 32);
    }
}

/// The code that random bytes select, one character of the alphabet for each byte.
pub fn invite_code_from(random: &[u8]) -> (code: String)
    ensures
        code@ == code_of(random@),
{
    proof {
        lemma_alphabet();
    }
    let mut chars: Vec<char> = Vec::new();
    let mut i: usize = 0;
    while i < random.len()
        invariant
            i <= random@.len(),
            INVITE_CODE_ALPHABET@.len() == 32,
            chars@ == code_of(random@.take(i as int)),
        decreases random@.len() - i,
    {
        let index: usize = random[i] as usize % 32;
        chars.push(INVITE_CODE_ALPHABET.get_char(index));
        assert(chars@ =~= code_of(random@.take(i + 1)));
        i += 1;
    }
    assert(random@.take(i as int) =~= random@);
    from_chars(chars.as_slice())
}

/// A fresh invite code out of the system's random source, or the source's error.
pub fn generate_invite_code() -> (code: Result<String, getrandom::Error>)
    ensures
        code matches Ok(text) ==> is_code(text@) && code_letters(text@) == text@,
{
    let random = random_bytes(INVITE_CODE_LEN);
    proof {
        if random is Ok {
            law_selected_code_is_accepted(random->Ok_0@);
        }
    }
    invite_code_from_source(random)
}

/// The code for what the random source gave: the code that its bytes select, or its error.
pub fn invite_code_from_source(random: Result<Vec<u8>, getrandom::Error>) -> (code: Result<
    String,
    getrandom::Error,
>)
    ensures
        match random {
            Ok(bytes) => code matches Ok(text) && text@ == code_of(bytes@),
            Err(error) => code matches Err(told) && told == error,
        },
{
    match random {
        Ok(bytes) => Ok(invite_code_from(bytes.as_slice())),
        Err(error) => Err(error),
    }
}

/// The normal form of a code as a user typed it: without white space and hyphens, in
/// upper case, of six characters of the alphabet.
pub fn normalize_invite_code(code: &str) -> (normalized: Result<String, InviteCodeError>)
    ensures
        match normalized {
            Ok(text) => text@ == code_letters(code@) && is_code(code_letters(code@)),
            Err(InviteCodeError::WrongLength) => utf8(code_letters(code@)).len()
                != INVITE_CODE_LEN,
            Err(InviteCodeError::UnsupportedCharacters) => {
                &&& utf8(code_letters(code@)).len() == INVITE_CODE_LEN
                &&& !is_code(code_letters(code@))
            },
        },
{
    let chars = to_chars(code);
    let mut letters: Vec<char> = Vec::new();
    let mut i: usize = 0;
    while i < chars.len()
        invariant
            i <= chars@.len(),
            letters@ == code_letters(chars@.take(i as int)),
        decreases chars@.len() - i,
    {
        let c: char = chars[i];
        let ghost so_far = chars@.take(i + 1);
        assert(so_far.drop_last() =~= chars@.take(i as int));
        assert(so_far.last() == c);
        if !is_whitespace(c) && c != '-' {
            letters.push(to_ascii_upper(c));
        }
        i += 1;
    }
    assert(chars@.take(i as int) =~= chars@);
    let text = from_chars(letters.as_slice());
    if text.as_str().as_bytes().len() != INVITE_CODE_LEN {
        return Err(InviteCodeError::WrongLength);
    }
    let mut k: usize = 0;
    while k < letters.len()
        invariant
            k <= letters@.len(),
            letters@ == code_letters(code@),
            utf8(code_letters(code@)).len() == INVITE_CODE_LEN,
            forall|j: int| 0 <= j < k ==> is_code_char(#[trigger] letters@[j]),
        decreases letters@.len() - k,
    {
        if !may_stand_in_code(letters[k]) {
            assert(!is_code_char(letters@[k as int]));
            return Err(InviteCodeError::UnsupportedCharacters);
        }
        k += 1;
    }
    Ok(text)
}

fn may_stand_in_code(c: char) -> (answer: bool)
    ensures
        answer == is_code_char(c),
{
    proof {
        lemma_alphabet();
    }
    let mut i: usize = 0;
    while i < 32
        invariant
            i <= 32,
            INVITE_CODE_ALPHABET@.len() == 32,
            forall|j: int| 0 <= j < i ==> INVITE_CODE_ALPHABET@[j] != c,
        decreases 32 - i,
    {
        if INVITE_CODE_ALPHABET.get_char(i) == c {
            assert(INVITE_CODE_ALPHABET@[i as int] == c);
            return true;
        }
        i += 1;
    }
    false
}

/// The name under which an invite is registered: a digest of its code.
pub fn invite_code_hash(code: &str) -> (name: String)
    ensures
        name@ == code_hash(code@),
{
    let normalized = ascii_uppercase(code);
    let mut hashed: Vec<u8> = Vec::new();
    append_bytes(&mut hashed, INVITE_CODE_CONTEXT.as_bytes());
    append_bytes(&mut hashed, normalized.as_str().as_bytes());
    let digest = sha256_digest(hashed.as_slice());
    assert(hashed@ =~= utf8(INVITE_CODE_CONTEXT@) + utf8(upper(code@)));
    assert(digest@.subrange(0, 16) =~= digest@.take(16));
    hex_encode(slice_subrange(digest.as_slice(), 0, 16))
}

/// The number two users compare to see that they hold each other's identity key.
pub fn safety_number(first_identity: &[u8; 32], second_identity: &[u8; 32]) -> (number: String)
    ensures
        number@ == safety_number_between(first_identity@, second_identity@),
{
    let swapped = is_bytes_before(second_identity.as_slice(), first_identity.as_slice());
    let (low, high) = if swapped {
        (second_identity, first_identity)
    } else {
        (first_identity, second_identity)
    };
    let mut hashed: Vec<u8> = Vec::new();
    append_bytes(&mut hashed, SAFETY_NUMBER_CONTEXT.as_bytes());
    append_bytes(&mut hashed, low.as_slice());
    append_bytes(&mut hashed, high.as_slice());
    let digest = sha256_digest(hashed.as_slice());
    assert(hashed@ =~= utf8(SAFETY_NUMBER_CONTEXT@) + low@ + high@);
    assert(digest@.subrange(0, 20) =~= digest@.take(20));
    hex_encode(slice_subrange(digest.as_slice(), 0, 20))
}

fn value_of_digit(byte: u8) -> (value: Option<u8>)
    ensures
        value == digit_value(byte),
        value matches Some(value) ==> value < 16,
{
    if 48 <= byte && byte <= 57 {
        Some(byte - 48)
    } else if 65 <= byte && byte <= 70 {
        Some(byte - 55)
    } else if 97 <= byte && byte <= 102 {
        Some(byte - 87)
    } else {
        None
    }
}

fn value_of_pair(first: u8, second: u8) -> (value: Result<u8, HexError>)
    ensures
        value == pair_value(first, second),
{
    let is_text = (first < 0x80 && second < 0x80) || (0xc2 <= first && first <= 0xdf && 0x80
        <= second && second <= 0xbf);
    if !is_text {
        return Err(HexError::NotText);
    }
    match (value_of_digit(first), value_of_digit(second)) {
        (Some(high), Some(low)) => Ok(high * 16 + low),
        (None, Some(low)) => if first == 43 {
            Ok(low)
        } else {
            Err(HexError::NotDigits)
        },
        _ => Err(HexError::NotDigits),
    }
}

/// The bytes that hexadecimal digits stand for, two digits to a byte.
pub fn hex_decode(value: &str) -> (decoded: Result<Vec<u8>, HexError>)
    ensures
        match decoded {
            Ok(bytes) => unhex(utf8(value@)) == Ok::<Seq<u8>, HexError>(bytes@),
            Err(error) => unhex(utf8(value@)) == Err::<Seq<u8>, HexError>(error),
        },
{
    let text = value.as_bytes();
    if text.len() % 2 != 0 {
        return Err(HexError::OddLength);
    }
    let mut decoded: Vec<u8> = Vec::new();
    let mut i: usize = 0;
    while i < text.len()
        invariant
            text@.len() % 2 == 0,
            i % 2 == 0,
            i <= text@.len(),
            text@ == utf8(value@),
            unhex(text@.take(i as int)) == Ok::<Seq<u8>, HexError>(decoded@),
        decreases text@.len() - i,
    {
        let ghost so_far = text@.take(i + 2);
        assert(so_far.take(so_far.len() - 2) =~= text@.take(i as int));
        match value_of_pair(text[i], text[i + 1]) {
            Ok(byte) => {
                decoded.push(byte);
            },
            Err(error) => {
                proof {
                    assert(unhex(so_far) == Err::<Seq<u8>, HexError>(error));
                    lemma_unhex_error_stays(text@, i + 2, error);
                }
                return Err(error);
            },
        }
        i += 2;
    }
    assert(text@.take(i as int) =~= text@);
    Ok(decoded)
}

proof fn lemma_unhex_error_stays(text: Seq<u8>, end: int, error: HexError)
    requires
        0 <= end <= text.len(),
        end % 2 == 0,
        text.len() % 2 == 0,
        unhex(text.take(end)) == Err::<Seq<u8>, HexError>(error),
    ensures
        unhex(text) == Err::<Seq<u8>, HexError>(error),
    decreases text.len() - end,
{
    if end == text.len() {
        assert(text.take(end) =~= text);
    } else {
        let more = text.take(end + 2);
        assert(more.take(more.len() - 2) =~= text.take(end));
        lemma_unhex_error_stays(text, end + 2, error);
    }
}

/// A code selected by six random bytes is in its normal form: joining by it is never
/// refused for its shape.
pub proof fn law_selected_code_is_accepted(random: Seq<u8>)
    requires
        random.len() == INVITE_CODE_LEN,
    ensures
        is_code(code_of(random)),
        code_letters(code_of(random)) == code_of(random),
{
    lemma_alphabet();
    let code = code_of(random);
    assert forall|i: int| 0 <= i < code.len() implies is_code_char(#[trigger] code[i]) by {
        assert(INVITE_CODE_ALPHABET@[random[i] as int % 32] == code[i]);
    }
    lemma_code_chars_stay(code);
    assert(is_ascii_chars(code)) by {
        assert forall|i: int| 0 <= i < code.len() implies (#[trigger] code[i] as nat) < 128 by {
            assert(is_code_char(code[i]));
        }
    }
    is_ascii_chars_encode_utf8(code);
}

proof fn lemma_code_chars_stay(text: Seq<char>)
    requires
        forall|i: int| 0 <= i < text.len() ==> is_code_char(#[trigger] text[i]),
    ensures
        code_letters(text) == text,
    decreases text.len(),
{
    if text.len() > 0 {
        lemma_alphabet();
        assert(is_code_char(text[text.len() - 1]));
        assert forall|i: int| 0 <= i < text.drop_last().len() implies is_code_char(
            #[trigger] text.drop_last()[i],
        ) by {
            assert(is_code_char(text[i]));
        }
        lemma_code_chars_stay(text.drop_last());
        assert(text.drop_last().push(text.last()) =~= text);
    } else {
        assert(text =~= Seq::<char>::empty());
    }
}

/// An accepted code in its normal form is accepted again and stays as it is.
pub proof fn law_normal_form_is_kept(text: Seq<char>)
    requires
        is_code(code_letters(text)),
    ensures
        code_letters(code_letters(text)) == code_letters(text),
{
    lemma_code_chars_stay(code_letters(text));
}

/// However a code is spelt, its normal form is registered and looked up under one name:
/// the case of letters does not change the name.
pub proof fn law_code_hash_ignores_case(text: Seq<char>)
    ensures
        code_hash(upper(text)) == code_hash(text),
{
    assert(upper(upper(text)) =~= upper(text));
}

/// Both users see one safety number, whoever comes first.
pub proof fn law_safety_number_is_symmetric(first: Seq<u8>, second: Seq<u8>)
    ensures
        safety_number_between(first, second) == safety_number_between(second, first),
{
    lemma_bytes_order(first, second, first);
    lemma_bytes_order(second, first, second);
}

/// Decoding gives back what was encoded.
pub proof fn law_hex_is_read_back(bytes: Seq<u8>)
    ensures
        unhex(utf8(hex(bytes))) == Ok::<Seq<u8>, HexError>(bytes),
    decreases bytes.len(),
{
    let text = hex(bytes);
    assert(is_ascii_chars(text)) by {
        assert forall|i: int| 0 <= i < text.len() implies (#[trigger] text[i] as nat) < 128 by {}
    }
    is_ascii_chars_encode_utf8(text);
    if bytes.len() == 0 {
        assert(utf8(text) =~= Seq::<u8>::empty());
        assert(bytes =~= Seq::<u8>::empty());
    } else {
        let before = bytes.drop_last();
        law_hex_is_read_back(before);
        let shorter = hex(before);
        assert(is_ascii_chars(shorter)) by {
            assert forall|i: int| 0 <= i < shorter.len() implies (#[trigger] shorter[i] as nat)
                < 128 by {}
        }
        is_ascii_chars_encode_utf8(shorter);
        let raw = utf8(text);
        assert(raw.take(raw.len() - 2) =~= utf8(shorter));
        let last = bytes.last();
        assert(raw[raw.len() - 2] == text[text.len() - 2] as u8);
        assert(raw[raw.len() - 1] == text[text.len() - 1] as u8);
        assert(pair_value(raw[raw.len() - 2], raw[raw.len() - 1]) == Ok::<u8, HexError>(last));
        assert(before.push(last) =~= bytes);
    }
}

} // verus!
