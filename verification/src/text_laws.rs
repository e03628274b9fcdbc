//! What holds of the texts that users read and type: names, codes, numbers, times, orders.

use crate::args::{has_flag, is_verbose_flag, switches_on, without_flags};
use crate::bytes::utf8;
use crate::chat::{
    age_at, age_in_words, leaves_chat, message_preview, preview_line, preview_of, shown_name,
};
use crate::history::stored_rank;
use crate::invite::{
    code_letters, code_of, is_code, is_code_char, unhex, HexError, INVITE_CODE_ALPHABET,
    INVITE_CODE_LEN,
};
use crate::menu::{
    digits_value, goes_back, history_choice, invite_choice, main_choice, number_of, page_choice,
    pages_of, quits, selected_entry, HistoryChoice, InviteChoice, MainChoice, PageChoice,
};
use crate::profile::shown_lines;
use crate::records::{EventRow, MessageDirection, MessageRow, MessageStatus};
use crate::service::told_error;
use crate::sorted::bytes_before;
use crate::sync::positions;
use crate::text::{
    ascii_upper, decimal, digit, first_chars, has_part, is_white_space, lower, trimmed,
    trimmed_end, trimmed_start, upper,
};
use vstd::prelude::*;
use vstd::utf8::{is_ascii_chars, is_ascii_chars_encode_utf8};

verus! {

/// Byte strings are ordered by the first byte in which they differ; where there is none, the
/// shorter one comes first.
pub proof fn law_first_difference_decides_order(a: Seq<u8>, b: Seq<u8>, at: int)
    requires
        0 <= at <= a.len(),
        at <= b.len(),
        a.take(at) == b.take(at),
    ensures
        at < a.len() && at < b.len() && a[at] < b[at] ==> bytes_before(a, b) && !bytes_before(b, a),
        at == a.len() && at < b.len() ==> bytes_before(a, b) && !bytes_before(b, a),
        at == a.len() && at == b.len() ==> !bytes_before(a, b),
    decreases at,
{
    if at > 0 {
        let x = a.drop_first();
        let y = b.drop_first();
        assert(a[0] == a.take(at)[0]);
        assert(b[0] == b.take(at)[0]);
        assert(x.take(at - 1) =~= a.take(at).drop_first());
        assert(y.take(at - 1) =~= b.take(at).drop_first());
        law_first_difference_decides_order(x, y, at - 1);
        if at < a.len() {
            assert(x[at - 1] == a[at]);
        }
        if at < b.len() {
            assert(y[at - 1] == b[at]);
        }
    }
}

/// Times and counts within the stored range are ordered as they are.
pub proof fn law_stored_values_keep_their_order(a: u64, b: u64)
    requires
        a <= 0x7fff_ffff_ffff_ffff,
        b <= 0x7fff_ffff_ffff_ffff,
    ensures
        stored_rank(a) < stored_rank(b) <==> a < b,
        stored_rank(a) == stored_rank(b) <==> a == b,
{
}

proof fn lemma_trimmed_start(text: Seq<char>)
    ensures
        exists|from: int|
            0 <= from <= text.len() && #[trigger] text.skip(from) == trimmed_start(text) && forall|
                i: int,
            |
                0 <= i < from ==> is_white_space(#[trigger] text[i]),
        trimmed_start(text).len() > 0 ==> !is_white_space(trimmed_start(text)[0]),
    decreases text.len(),
{
    if text.len() > 0 && is_white_space(text[0]) {
        let rest = text.drop_first();
        lemma_trimmed_start(rest);
        let from = choose|from: int|
            0 <= from <= rest.len() && #[trigger] rest.skip(from) == trimmed_start(rest) && forall|
                i: int,
            |
                0 <= i < from ==> is_white_space(#[trigger] rest[i]);
        assert(text.skip(from + 1) =~= rest.skip(from));
        assert forall|i: int| 0 <= i < from + 1 implies is_white_space(#[trigger] text[i]) by {
            if i > 0 {
                assert(rest[i - 1] == text[i]);
            }
        }
    } else {
        assert(text.skip(0) =~= text);
    }
}

proof fn lemma_trimmed_end(text: Seq<char>)
    ensures
        exists|to: int|
            0 <= to <= text.len() && #[trigger] text.take(to) == trimmed_end(text) && forall|i: int|
                to <= i < text.len() ==> is_white_space(#[trigger] text[i]),
        trimmed_end(text).len() > 0 ==> !is_white_space(trimmed_end(text).last()),
    decreases text.len(),
{
    if text.len() > 0 && is_white_space(text.last()) {
        let rest = text.drop_last();
        lemma_trimmed_end(rest);
        let to = choose|to: int|
            0 <= to <= rest.len() && #[trigger] rest.take(to) == trimmed_end(rest) && forall|i: int|
                to <= i < rest.len() ==> is_white_space(#[trigger] rest[i]);
        assert(text.take(to) =~= rest.take(to));
        assert forall|i: int| to <= i < text.len() implies is_white_space(#[trigger] text[i]) by {
            if i < rest.len() {
                assert(rest[i] == text[i]);
            }
        }
    } else {
        assert(text.take(text.len() as int) =~= text);
    }
}

/// Trimming takes the white space at both ends and nothing else: what is left is a stretch
/// of the text that neither begins nor ends with white space.
pub proof fn law_trimming_takes_outer_white_space(text: Seq<char>)
    ensures
        exists|from: int, to: int|
            {
                &&& 0 <= from <= to <= text.len()
                &&& #[trigger] text.subrange(from, to) == trimmed(text)
                &&& forall|i: int|
                    0 <= i < from || to <= i < text.len() ==> is_white_space(#[trigger] text[i])
            },
        trimmed(text).len() > 0 ==> !is_white_space(trimmed(text)[0]) && !is_white_space(
            trimmed(text).last(),
        ),
{
    lemma_trimmed_start(text);
    let start = trimmed_start(text);
    lemma_trimmed_end(start);
    let from = choose|from: int|
        0 <= from <= text.len() && #[trigger] text.skip(from) == start && forall|i: int|
            0 <= i < from ==> is_white_space(#[trigger] text[i]);
    let to = choose|to: int|
        0 <= to <= start.len() && #[trigger] start.take(to) == trimmed_end(start) && forall|i: int|
            to <= i < start.len() ==> is_white_space(#[trigger] start[i]);
    assert(text.subrange(from, from + to) =~= trimmed(text));
    assert forall|i: int|
        0 <= i < from || from + to <= i < text.len() implies is_white_space(#[trigger] text[i]) by {
        if i >= from {
            assert(start[i - from] == text[i]);
        }
    }
    if trimmed(text).len() > 0 {
        assert(trimmed(text)[0] == start[0]);
    }
}

/// A text without white space at its ends is left alone by trimming.
pub proof fn law_trimmed_text_stays(text: Seq<char>)
    requires
        text.len() > 0 ==> !is_white_space(text[0]) && !is_white_space(text.last()),
    ensures
        trimmed(text) == text,
{
}

/// Lower and upper case concern ASCII letters alone, each in its place.
pub proof fn law_case_concerns_letters(text: Seq<char>, i: int)
    requires
        0 <= i < text.len(),
    ensures
        lower(text).len() == text.len(),
        upper(text).len() == text.len(),
        'A' <= text[i] <= 'Z' ==> lower(text)[i] as u32 == text[i] as u32 + 32,
        !('A' <= text[i] <= 'Z') ==> lower(text)[i] == text[i],
        'a' <= text[i] <= 'z' ==> upper(text)[i] as u32 + 32 == text[i] as u32,
        !('a' <= text[i] <= 'z') ==> upper(text)[i] == text[i],
{
}

/// A cut text is the beginning of the text, as long as it may be.
pub proof fn law_cut_text_is_a_beginning(text: Seq<char>, limit: nat)
    ensures
        first_chars(text, limit).len() == if text.len() < limit {
            text.len()
        } else {
            limit
        },
        text.take(first_chars(text, limit).len() as int) == first_chars(text, limit),
{
    assert(text.take(text.len() as int) =~= text);
}

/// A name is shown without the white space round it, cut to sixty-four characters; a user
/// without a name is shown as anonymous.
pub proof fn law_name_is_shown_as_typed(name: Seq<char>)
    ensures
        trimmed(name).len() == 0 ==> shown_name(name) == "Anonymous"@,
        0 < trimmed(name).len() <= 64 ==> shown_name(name) == trimmed(name),
        trimmed(name).len() > 64 ==> shown_name(name) == trimmed(name).take(64),
{
}

/// A preview begins with the text, and ends with an ellipsis exactly if something was cut.
pub proof fn law_preview_begins_with_text(text: Seq<char>, limit: nat)
    ensures
        text.len() > limit ==> preview_of(text, limit) == text.take(limit as int) + "..."@,
        text.len() <= limit ==> preview_of(text, limit) == text,
{
}

/// The preview of a message shows its text, and whether it was the user's own.
pub proof fn law_message_preview_shows_text(message: MessageRow, text: Seq<char>)
    requires
        message.plaintext == Some(text),
        trimmed(text).len() > 0,
    ensures
        message.direction == MessageDirection::Sent ==> message_preview(message) == "you: "@
            + trimmed(text),
        message.direction == MessageDirection::Received ==> message_preview(message) == trimmed(
            text,
        ),
{
}

/// Under a chat stands what waits, and where nothing waits the last message with its age.
pub proof fn law_chat_line_tells_what_waits(last: MessageRow, waiting: u64, now: u64)
    ensures
        waiting == 1 ==> preview_line(Some(last), waiting, now) == "Offline · "@
            + "1 pending message"@,
        waiting > 1 ==> preview_line(Some(last), waiting, now) == "Offline · "@ + decimal(
            waiting as nat,
        ) + " pending messages"@,
        waiting == 0 ==> preview_line(Some(last), waiting, now) == "Offline · last message: "@
            + preview_of(message_preview(last), 48) + " · "@ + age_in_words(
            age_at(last.created_at_unix_secs, now),
        ),
        preview_line(None, 0, now) == "Offline · No messages"@,
{
}

/// An age is told in the greatest unit that it fills: minutes, hours, days.
pub proof fn law_age_is_told_in_its_unit(count: nat, rest: nat)
    ensures
        rest < 60 ==> age_in_words(rest) == "just now"@,
        rest < 60 ==> age_in_words(60 + rest) == "1 min ago"@,
        2 <= count < 60 && rest < 60 ==> age_in_words(60 * count + rest) == decimal(count)
            + " min ago"@,
        rest < 3600 ==> age_in_words(3600 + rest) == "1 hour ago"@,
        2 <= count < 24 && rest < 3600 ==> age_in_words(3600 * count + rest) == decimal(count)
            + " hours ago"@,
        rest < 86400 ==> age_in_words(86400 + rest) == "yesterday"@,
        2 <= count && rest < 86400 ==> age_in_words(86400 * count + rest) == decimal(count)
            + " days ago"@,
{
    if 2 <= count && rest < 60 {
        assert((60 * count + rest) / 60 == count) by (nonlinear_arith)
            requires
                rest < 60,
        ;
    }
    if 2 <= count && rest < 3600 {
        assert((3600 * count + rest) / 3600 == count) by (nonlinear_arith)
            requires
                rest < 3600,
        ;
    }
    if 2 <= count && rest < 86400 {
        assert((86400 * count + rest) / 86400 == count) by (nonlinear_arith)
            requires
                rest < 86400,
        ;
    }
}

/// The age of something is the time since then; what lies ahead has none.
pub proof fn law_age_is_time_since(then: u64, now: u64)
    ensures
        then <= now ==> age_at(then, now) == now - then,
        then > now ==> age_at(then, now) == 0,
{
}

proof fn lemma_decimal_digits(n: nat)
    ensures
        decimal(n).len() > 0,
        digits_value(decimal(n)) == Some(n),
        decimal(n)[0] != '+',
        forall|i: int| 0 <= i < decimal(n).len() ==> '0' <= #[trigger] decimal(n)[i] <= '9',
    decreases n,
{
    if n < 10 {
        let text = decimal(n);
        assert(text =~= seq![digit(n)]);
        assert(text.drop_last() =~= Seq::empty());
        assert(text.last() == digit(n));
        assert(digits_value(text.drop_last()) == Some(0nat));
    } else {
        lemma_decimal_digits(n / 10);
        let text = decimal(n);
        assert(text.drop_last() =~= decimal(n / 10));
        assert(text.last() == digit(n % 10));
        assert(text[0] == decimal(n / 10)[0]);
        assert((n / 10) * 10 + n % 10 == n);
    }
}

/// A number that is written is read as that number.
pub proof fn law_written_number_is_read(n: nat)
    ensures
        number_of(decimal(n)) == Some(n),
{
    lemma_decimal_digits(n);
}

/// Who types the number of an entry selects that entry, and there is no entry beyond the
/// last.
pub proof fn law_number_selects_its_entry(n: nat, count: nat)
    ensures
        1 <= n <= count ==> selected_entry(decimal(n), count) == Some(n - 1),
        n == 0 || n > count ==> selected_entry(decimal(n), count) is None,
{
    lemma_decimal_digits(n);
    let text = decimal(n);
    assert('0' <= text[0] <= '9' && '0' <= text.last() <= '9') by {
        assert(text.last() == text[text.len() - 1]);
    }
    law_trimmed_text_stays(text);
}

/// On a page of chats the letters turn by one page, never beyond the first or the last.
pub proof fn law_letters_turn_pages(page: int, pages: int, shown: nat)
    requires
        0 <= page < pages <= usize::MAX,
    ensures
        page > 0 ==> page_choice("p"@, page, pages, shown) == PageChoice::Turn((page - 1) as usize),
        page == 0 ==> page_choice("p"@, page, pages, shown) == PageChoice::AtFirstPage,
        page + 1 < pages ==> page_choice("n"@, page, pages, shown) == PageChoice::Turn(
            (page + 1) as usize,
        ),
        page + 1 == pages ==> page_choice("n"@, page, pages, shown) == PageChoice::AtLastPage,
        page_choice("b"@, page, pages, shown) == PageChoice::Back,
{
    reveal_strlit("p");
    reveal_strlit("n");
    reveal_strlit("b");
    reveal_strlit("back");
    law_trimmed_text_stays("p"@);
    law_trimmed_text_stays("n"@);
    law_trimmed_text_stays("b"@);
    assert(lower("p"@)[0] == 'p');
    assert(lower("n"@)[0] == 'n');
    assert(lower("b"@)[0] == 'b');
    assert(lower("p"@).len() == 1 && lower("n"@).len() == 1 && lower("back"@).len() == 4);
}

/// A number typed on a page opens the chat at that place of the page.
pub proof fn law_number_opens_its_chat(n: nat, page: int, pages: int, shown: nat)
    requires
        1 <= n <= shown <= usize::MAX,
    ensures
        page_choice(decimal(n), page, pages, shown) == PageChoice::Open((n - 1) as usize),
        history_choice(decimal(n), shown) == HistoryChoice::Open((n - 1) as usize),
{
    law_number_selects_its_entry(n, shown);
    lemma_decimal_digits(n);
    let text = decimal(n);
    assert('0' <= text[0] <= '9' && '0' <= text.last() <= '9') by {
        assert(text.last() == text[text.len() - 1]);
    }
    law_trimmed_text_stays(text);
    reveal_strlit("p");
    reveal_strlit("n");
    reveal_strlit("a");
    reveal_strlit("b");
    reveal_strlit("back");
    assert(lower(text)[0] == text[0]);
    assert(lower("p"@)[0] == 'p');
    assert(lower("n"@)[0] == 'n');
    assert(lower("a"@)[0] == 'a');
    assert(lower("b"@)[0] == 'b');
    assert(lower("back"@)[0] == 'b');
}

/// Six chats stand on a page, and there is one page even without chats.
pub proof fn law_six_chats_stand_on_a_page(pages: nat, rest: nat)
    requires
        1 <= rest <= 6,
    ensures
        pages_of(0) == 1,
        pages_of(6 * pages + rest) == pages + 1,
{
    assert((6 * pages + rest + 5) / 6 == pages + 1) by (nonlinear_arith)
        requires
            1 <= rest <= 6,
    ;
}

/// A chat is left by two commands, in any case and with white space round them, and by no
/// other line.
pub proof fn law_chat_is_left_by_command(line: Seq<char>)
    ensures
        leaves_chat(line) <==> lower(trimmed(line)) == "/back"@ || lower(trimmed(line))
            == "/exit"@,
{
    reveal_strlit("/back");
    reveal_strlit("/exit");
    assert(lower("/back"@) =~= "/back"@);
    assert(lower("/exit"@) =~= "/exit"@);
}

/// The normal form of a code is put together from the normal forms of its parts.
pub proof fn law_code_is_read_letter_by_letter(a: Seq<char>, b: Seq<char>)
    ensures
        code_letters(a + b) == code_letters(a) + code_letters(b),
    decreases b.len(),
{
    if b.len() == 0 {
        assert(a + b =~= a);
        assert(code_letters(a) + code_letters(b) =~= code_letters(a));
    } else {
        law_code_is_read_letter_by_letter(a, b.drop_last());
        assert((a + b).drop_last() =~= a + b.drop_last());
        assert((a + b).last() == b.last());
        assert(code_letters(a + b) =~= code_letters(a) + code_letters(b));
    }
}

/// Of a single character white space and hyphens vanish, and letters come in upper case.
pub proof fn law_code_letter_is_in_upper_case(c: char)
    ensures
        is_white_space(c) || c == '-' ==> code_letters(seq![c]) == Seq::<char>::empty(),
        !is_white_space(c) && c != '-' ==> code_letters(seq![c]) == seq![ascii_upper(c)],
{
    let text = seq![c];
    assert(text.drop_last() =~= Seq::<char>::empty());
    assert(text.last() == c);
    assert(code_letters(text.drop_last()) =~= Seq::<char>::empty());
    assert(seq![ascii_upper(c)] =~= Seq::<char>::empty().push(ascii_upper(c)));
}

proof fn lemma_alphabet_is_ascii()
    ensures
        INVITE_CODE_ALPHABET@.len() == 32,
        is_ascii_chars(INVITE_CODE_ALPHABET@),
        forall|i: int, j: int|
            0 <= i < j < 32 ==> INVITE_CODE_ALPHABET@[i] != INVITE_CODE_ALPHABET@[j],
{
    reveal_strlit("ABCDEFGHJKLMNPQRSTUVWXYZ23456789");
}

/// An invite code has six characters, each a capital letter or a digit.
pub proof fn law_code_has_six_characters(code: Seq<char>, i: int)
    requires
        is_code(code),
    ensures
        code.len() == 6,
        0 <= i < 6 ==> 'A' <= code[i] <= 'Z' || '2' <= code[i] <= '9',
        0 <= i < 6 ==> code[i] != 'I' && code[i] != 'O',
{
    lemma_alphabet_is_ascii();
    reveal_strlit("ABCDEFGHJKLMNPQRSTUVWXYZ23456789");
    assert forall|k: int| 0 <= k < code.len() implies 0 <= (#[trigger] code[k]) as u32 && code[k]
        as u32 <= 127 by {
        assert(is_code_char(code[k]));
        let at = choose|at: int| 0 <= at < 32 && INVITE_CODE_ALPHABET@[at] == code[k];
    }
    assert(is_ascii_chars(code));
    is_ascii_chars_encode_utf8(code);
    assert(utf8(code).len() == code.len());
    assert(INVITE_CODE_LEN == 6);
    if 0 <= i < 6 {
        assert(is_code_char(code[i]));
        let at = choose|at: int| 0 <= at < 32 && INVITE_CODE_ALPHABET@[at] == code[i];
    }
}

/// Every code comes from random bytes, and codes from bytes that select differently differ:
/// no code is favoured.
pub proof fn law_random_bytes_select_every_code(a: Seq<u8>, b: Seq<u8>, i: int)
    requires
        a.len() == b.len(),
        0 <= i < a.len(),
    ensures
        code_of(a).len() == a.len(),
        code_of(a)[i] == code_of(b)[i] <==> a[i] % 32 == b[i] % 32,
        is_code_char(code_of(a)[i]),
{
    lemma_alphabet_is_ascii();
    assert(code_of(a)[i] == INVITE_CODE_ALPHABET@[a[i] as int % 32]);
    assert(code_of(b)[i] == INVITE_CODE_ALPHABET@[b[i] as int % 32]);
}

/// Of the arguments of the program the flags are taken out, and nothing else: the rest stays
/// in its order.
pub proof fn law_flags_are_taken_out(a: Seq<Seq<char>>, b: Seq<Seq<char>>, argument: Seq<char>)
    ensures
        without_flags(a + b) == without_flags(a) + without_flags(b),
        argument == "--verbose"@ || argument == "-v"@ ==> without_flags(seq![argument]) == Seq::<
            Seq<char>,
        >::empty() && has_flag(seq![argument]),
        argument != "--verbose"@ && argument != "-v"@ ==> without_flags(seq![argument])
            == seq![argument],
    decreases b.len(),
{
    let one = seq![argument];
    assert(one.drop_last() =~= Seq::<Seq<char>>::empty());
    assert(one.last() == argument && one[0] == argument);
    assert(without_flags(one.drop_last()) =~= Seq::<Seq<char>>::empty());
    assert(Seq::<Seq<char>>::empty().push(argument) =~= one);
    assert(is_verbose_flag(one[0]) == is_verbose_flag(argument));
    if b.len() == 0 {
        assert(a + b =~= a);
        assert(without_flags(a) + without_flags(b) =~= without_flags(a));
    } else {
        law_flags_are_taken_out(a, b.drop_last(), argument);
        assert((a + b).drop_last() =~= a + b.drop_last());
        assert((a + b).last() == b.last());
        assert(without_flags(a + b) =~= without_flags(a) + without_flags(b));
    }
}

/// What is chosen in a menu does not depend on the white space round it.
pub proof fn law_choice_ignores_outer_white_space(a: Seq<char>, b: Seq<char>)
    requires
        trimmed(a) == trimmed(b),
    ensures
        main_choice(a) == main_choice(b),
        invite_choice(a) == invite_choice(b),
        goes_back(a) == goes_back(b),
        quits(a) == quits(b),
{
}

/// The entries of the main menu are chosen by their numbers.
pub proof fn law_main_menu_goes_by_numbers(selection: Seq<char>)
    ensures
        trimmed(selection) == "1"@ ==> main_choice(selection) == MainChoice::CreateInvite
            && invite_choice(selection) == InviteChoice::Proceed,
        trimmed(selection) == "2"@ ==> main_choice(selection) == MainChoice::JoinInvite,
        trimmed(selection) == "3"@ ==> main_choice(selection) == MainChoice::Messages,
        trimmed(selection) == "4"@ ==> main_choice(selection) == MainChoice::Profile,
{
    reveal_strlit("1");
    reveal_strlit("2");
    reveal_strlit("3");
    reveal_strlit("4");
    assert("1"@[0] == '1' && "2"@[0] == '2' && "3"@[0] == '3' && "4"@[0] == '4');
}

/// A letter or a word leads back, another one out, in any case.
pub proof fn law_words_lead_back_and_out(text: Seq<char>)
    ensures
        goes_back(text) <==> lower(trimmed(text)) == "b"@ || lower(trimmed(text)) == "back"@,
        quits(text) <==> lower(trimmed(text)) == "q"@ || lower(trimmed(text)) == "quit"@,
{
    reveal_strlit("b");
    reveal_strlit("back");
    reveal_strlit("q");
    reveal_strlit("quit");
    assert(lower("b"@) =~= "b"@);
    assert(lower("back"@) =~= "back"@);
    assert(lower("q"@) =~= "q"@);
    assert(lower("quit"@) =~= "quit"@);
}

/// A part is found in a text wherever it stands.
pub proof fn law_part_is_found_anywhere(before: Seq<char>, part: Seq<char>, after: Seq<char>)
    ensures
        has_part(before + part + after, part),
{
    let text = before + part + after;
    let at = before.len() as int;
    assert(text.subrange(at, at + part.len()) =~= part);
}

/// What a user is told of an error of the service depends on whether it says that the invite
/// is invalid, expired or used.
pub proof fn law_refusal_is_told_as_such(before: Seq<char>, after: Seq<char>, error: Seq<char>)
    ensures
        told_error(before + "invalid"@ + after) == "Invite is invalid, expired, or already used."@,
        told_error(before + "expired"@ + after) == "Invite is invalid, expired, or already used."@,
        told_error(before + "used"@ + after) == "Invite is invalid, expired, or already used."@,
        !has_part(error, "invalid"@) && !has_part(error, "expired"@) && !has_part(error, "used"@)
            ==> told_error(error)
            == "Pairing service is temporarily unavailable. Please try again."@,
{
    law_part_is_found_anywhere(before, "invalid"@, after);
    law_part_is_found_anywhere(before, "expired"@, after);
    law_part_is_found_anywhere(before, "used"@, after);
}

/// A message of the history is shown with its text: the user's own with how far it came, the
/// peer's with the peer's name.
pub proof fn law_history_line_shows_text(message: MessageRow, name: Seq<char>, text: Seq<char>)
    requires
        message.plaintext == Some(text),
    ensures
        message.direction == MessageDirection::Sent ==> shown_lines(message, name).len() == 2
            && shown_lines(message, name)[0] == "You: "@ + text && shown_lines(message, name)[1]
            == "    "@ + (match message.status {
            MessageStatus::Stored => "sending..."@,
            MessageStatus::Sent => "sent"@,
            MessageStatus::Received => "delivered"@,
        }),
        message.direction == MessageDirection::Received ==> shown_lines(message, name).len() == 1
            && shown_lines(message, name)[0] == shown_name(name) + ": "@ + text,
{
}

/// Events are told by their device and count, each in its place.
pub proof fn law_events_are_told_in_order(events: Seq<EventRow>, i: int)
    requires
        0 <= i < events.len(),
    ensures
        positions(events).len() == events.len(),
        positions(events)[i] == events[i].device_id + ":"@ + decimal(events[i].counter as nat),
{
}

/// The program speaks at length where the user asks for it by one of four words.
pub proof fn law_four_words_switch_on(value: Seq<char>)
    ensures
        switches_on(value) <==> value == "1"@ || value == "true"@ || value == "yes"@ || value
            == "on"@,
{
}

/// Hexadecimal digits in an odd number stand for no bytes, and every byte has its two digits.
pub proof fn law_hex_has_two_digits_for_a_byte(text: Seq<u8>, bytes: Seq<u8>)
    ensures
        text.len() % 2 == 1 ==> unhex(text) == Err::<Seq<u8>, HexError>(HexError::OddLength),
        unhex(text) == Ok::<Seq<u8>, HexError>(bytes) ==> text.len() == 2 * bytes.len(),
    decreases text.len(),
{
    if text.len() % 2 == 0 && text.len() > 0 {
        let before = text.take(text.len() - 2);
        if let Ok(read) = unhex(before) {
            law_hex_has_two_digits_for_a_byte(before, read);
        }
    }
}

/// Blanks, tabs and line ends are white space, also the blanks of other scripts; letters,
/// digits and hyphens are not.
pub proof fn law_blanks_are_white_space(c: char)
    ensures
        is_white_space(' ') && is_white_space('\t') && is_white_space('\n') && is_white_space('\r'),
        is_white_space('\u{a0}') && is_white_space('\u{3000}') && is_white_space('\u{2003}'),
        'a' <= c <= 'z' || 'A' <= c <= 'Z' || '0' <= c <= '9' || c == '-' || c == '/'
            ==> !is_white_space(c),
{
}

/// Values beyond the stored range come before all values within it.
pub proof fn law_values_beyond_range_come_first(a: u64, b: u64)
    requires
        a > 0x7fff_ffff_ffff_ffff,
        b <= 0x7fff_ffff_ffff_ffff,
    ensures
        stored_rank(a) < stored_rank(b),
{
}

} // verus!
