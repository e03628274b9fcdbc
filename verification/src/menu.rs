//! What a selection at one of the menus means, and the pages of the chat history.

use crate::bytes::{same_text, to_chars};
use crate::chat::{is_chat_back_command, leaves_chat};
use crate::text::{lower, same_ignoring_ascii_case, trim, trimmed};
use vstd::prelude::*;

verus! {

/// The chats listed on the first screen of the history.
pub const RECENT_CHAT_LIMIT: usize = 3;

/// The chats listed on one page of the whole history.
pub const CHAT_HISTORY_PAGE_SIZE: usize = 6;

/// What is chosen at the main menu.
#[derive(Debug, Clone, Copy, PartialEq, Eq, Structural)]
pub enum MainChoice {
    CreateInvite,
    JoinInvite,
    Messages,
    Profile,
    Quit,
    Back,
    Invalid,
}

/// What is chosen at a menu with one thing to do.
#[derive(Debug, Clone, Copy, PartialEq, Eq, Structural)]
pub enum InviteChoice {
    Proceed,
    Back,
    Invalid,
}

/// What is chosen on the first screen of the history; chats count from zero.
#[derive(Debug, Clone, Copy, PartialEq, Eq, Structural)]
pub enum HistoryChoice {
    Back,
    ViewAll,
    Open(usize),
    Invalid,
}

/// What is chosen on a page of the whole history; chats count from zero.
#[derive(Debug, Clone, Copy, PartialEq, Eq, Structural)]
pub enum PageChoice {
    Back,
    Turn(usize),
    AtFirstPage,
    AtLastPage,
    Open(usize),
    Invalid,
}

/// What a line typed into a saved conversation asks for.
#[derive(Debug, Clone, Copy, PartialEq, Eq, Structural)]
pub enum SavedChatInput {
    Leave,
    Clear,
    Nothing,
    Message,
}

/// Whether a text is one of two words, up to white space around it and ASCII case.
pub open spec fn is_either(text: Seq<char>, short: Seq<char>, long: Seq<char>) -> bool {
    lower(trimmed(text)) == lower(short) || lower(trimmed(text)) == lower(long)
}

pub open spec fn goes_back(text: Seq<char>) -> bool {
    is_either(text, "b"@, "back"@)
}

pub open spec fn quits(text: Seq<char>) -> bool {
    is_either(text, "q"@, "quit"@)
}

/// The number that decimal digits stand for.
pub open spec fn digits_value(digits: Seq<char>) -> Option<nat>
    decreases digits.len(),
{
    if digits.len() == 0 {
        Some(0)
    } else if '0' <= digits.last() <= '9' {
        match digits_value(digits.drop_last()) {
            Some(value) => Some(value * 10 + (digits.last() as u32 - '0' as u32) as nat),
            None => None,
        }
    } else {
        None
    }
}

/// The number that a text stands for: one or more digits, behind a plus sign or not.
pub open spec fn number_of(text: Seq<char>) -> Option<nat> {
    let digits = if text.len() > 0 && text[0] == '+' {
        text.skip(1)
    } else {
        text
    };
    if digits.len() == 0 {
        None
    } else {
        digits_value(digits)
    }
}

/// The entry of a list of `count` that a text selects, counting from zero.
pub open spec fn selected_entry(text: Seq<char>, count: nat) -> Option<int> {
    match number_of(trimmed(text)) {
        Some(number) => if 1 <= number <= count {
            Some(number - 1)
        } else {
            None
        },
        None => None,
    }
}

/// What a selection at the main menu means.
pub open spec fn main_choice(selection: Seq<char>) -> MainChoice {
    if trimmed(selection) == "1"@ {
        MainChoice::CreateInvite
    } else if trimmed(selection) == "2"@ {
        MainChoice::JoinInvite
    } else if trimmed(selection) == "3"@ {
        MainChoice::Messages
    } else if trimmed(selection) == "4"@ {
        MainChoice::Profile
    } else if quits(trimmed(selection)) {
        MainChoice::Quit
    } else if goes_back(trimmed(selection)) {
        MainChoice::Back
    } else {
        MainChoice::Invalid
    }
}

/// What a selection at the menu of creating or of joining an invite means.
pub open spec fn invite_choice(selection: Seq<char>) -> InviteChoice {
    if trimmed(selection) == "1"@ {
        InviteChoice::Proceed
    } else if goes_back(trimmed(selection)) {
        InviteChoice::Back
    } else {
        InviteChoice::Invalid
    }
}

/// What a selection means where the `shown` latest chats are listed.
pub open spec fn history_choice(selection: Seq<char>, shown: nat) -> HistoryChoice {
    if goes_back(selection) {
        HistoryChoice::Back
    } else if shown == 0 {
        HistoryChoice::Invalid
    } else if lower(selection) == lower("a"@) {
        HistoryChoice::ViewAll
    } else {
        match selected_entry(selection, shown) {
            Some(index) => HistoryChoice::Open(index as usize),
            None => HistoryChoice::Invalid,
        }
    }
}

/// What a selection means on page `page` of `pages`, with `shown` chats on it.
pub open spec fn page_choice(selection: Seq<char>, page: int, pages: int, shown: nat) -> PageChoice {
    if goes_back(selection) {
        PageChoice::Back
    } else if lower(selection) == lower("p"@) {
        if page > 0 {
            PageChoice::Turn((page - 1) as usize)
        } else {
            PageChoice::AtFirstPage
        }
    } else if lower(selection) == lower("n"@) {
        if page + 1 < pages {
            PageChoice::Turn((page + 1) as usize)
        } else {
            PageChoice::AtLastPage
        }
    } else {
        match selected_entry(selection, shown) {
            Some(index) => PageChoice::Open(index as usize),
            None => PageChoice::Invalid,
        }
    }
}

/// The pages that a number of chats takes; an empty history has one.
pub open spec fn pages_of(chats: nat) -> nat {
    if chats == 0 {
        1
    } else {
        ((chats + CHAT_HISTORY_PAGE_SIZE - 1) / CHAT_HISTORY_PAGE_SIZE as int) as nat
    }
}

pub fn is_back_selection(selection: &str) -> (answer: bool)
    ensures
        answer == goes_back(selection@),
{
    let selection = trim(selection);
    same_ignoring_ascii_case(selection.as_str(), "b") || same_ignoring_ascii_case(
        selection.as_str(),
        "back",
    )
}

pub fn is_quit_selection(selection: &str) -> (answer: bool)
    ensures
        answer == quits(selection@),
{
    let selection = trim(selection);
    same_ignoring_ascii_case(selection.as_str(), "q") || same_ignoring_ascii_case(
        selection.as_str(),
        "quit",
    )
}

/// The entry of a list that the text selects, counting from zero.
pub fn select_entry(text: &str, count: usize) -> (index: Option<usize>)
    ensures
        match index {
            Some(index) => selected_entry(text@, count as nat) == Some(index as int),
            None => selected_entry(text@, count as nat) is None,
        },
{
    let chars = to_chars(trim(text).as_str());
    let start: usize = if chars.len() > 0 && chars[0] == '+' {
        1
    } else {
        0
    };
    if start == chars.len() {
        return None;
    }
    let ghost digits = chars@.skip(start as int);
    assert(digits == if chars@.len() > 0 && chars@[0] == '+' {
        chars@.skip(1)
    } else {
        chars@
    }) by {
        assert(chars@.skip(0) =~= chars@);
    }
    let mut number: usize = 0;
    let mut i: usize = start;
    while i < chars.len()
        invariant
            start <= i <= chars@.len(),
            digits == chars@.skip(start as int),
            digits.len() > 0,
            number_of(trimmed(text@)) == digits_value(digits),
            number <= count,
            digits_value(digits.take(i - start)) == Some(number as nat),
        decreases chars@.len() - i,
    {
        let c: char = chars[i];
        let ghost so_far = digits.take(i + 1 - start);
        assert(so_far.drop_last() =~= digits.take(i - start));
        assert(so_far.last() == c);
        if c < '0' || c > '9' {
            proof {
                lemma_not_digits(digits, i + 1 - start);
            }
            return None;
        }
        let value: usize = (c as u32 - 48) as usize;
        if value > count || number > count / 10 || number * 10 > count - value {
            proof {
                assert(digits_value(so_far) == Some((number * 10 + value) as nat));
                lemma_digits_grow(digits, i + 1 - start);
            }
            return None;
        }
        number = number * 10 + value;
        i += 1;
    }
    assert(digits.take(i - start) =~= digits);
    if number == 0 {
        None
    } else {
        Some(number - 1)
    }
}

proof fn lemma_not_digits(digits: Seq<char>, end: int)
    requires
        0 <= end <= digits.len(),
        digits_value(digits.take(end)) is None,
    ensures
        digits_value(digits) is None,
    decreases digits.len() - end,
{
    if end == digits.len() {
        assert(digits.take(end) =~= digits);
    } else {
        assert(digits.take(end + 1).drop_last() =~= digits.take(end));
        lemma_not_digits(digits, end + 1);
    }
}

proof fn lemma_digits_grow(digits: Seq<char>, end: int)
    requires
        0 <= end <= digits.len(),
        digits_value(digits.take(end)) is Some,
    ensures
        digits_value(digits) matches Some(value) ==> value >= digits_value(digits.take(end))->0,
    decreases digits.len() - end,
{
    if end == digits.len() {
        assert(digits.take(end) =~= digits);
    } else {
        assert(digits.take(end + 1).drop_last() =~= digits.take(end));
        if digits_value(digits.take(end + 1)) is Some {
            lemma_digits_grow(digits, end + 1);
        } else {
            lemma_not_digits(digits, end + 1);
        }
    }
}

/// What a selection at the main menu means.
pub fn choose_main(selection: &str) -> (choice: MainChoice)
    ensures
        choice == main_choice(selection@),
{
    let selection = trim(selection);
    let selection = selection.as_str();
    if same_text(selection, "1") {
        MainChoice::CreateInvite
    } else if same_text(selection, "2") {
        MainChoice::JoinInvite
    } else if same_text(selection, "3") {
        MainChoice::Messages
    } else if same_text(selection, "4") {
        MainChoice::Profile
    } else if is_quit_selection(selection) {
        MainChoice::Quit
    } else if is_back_selection(selection) {
        MainChoice::Back
    } else {
        MainChoice::Invalid
    }
}

/// What a selection at the menu of creating or of joining an invite means.
pub fn choose_invite(selection: &str) -> (choice: InviteChoice)
    ensures
        choice == invite_choice(selection@),
{
    let selection = trim(selection);
    let selection = selection.as_str();
    if same_text(selection, "1") {
        InviteChoice::Proceed
    } else if is_back_selection(selection) {
        InviteChoice::Back
    } else {
        InviteChoice::Invalid
    }
}

/// What a selection means where the `shown` latest chats are listed.
pub fn choose_history(selection: &str, shown: usize) -> (choice: HistoryChoice)
    ensures
        choice == history_choice(selection@, shown as nat),
{
    if is_back_selection(selection) {
        return HistoryChoice::Back;
    }
    if shown == 0 {
        return HistoryChoice::Invalid;
    }
    if same_ignoring_ascii_case(selection, "a") {
        return HistoryChoice::ViewAll;
    }
    match select_entry(selection, shown) {
        Some(index) => HistoryChoice::Open(index),
        None => HistoryChoice::Invalid,
    }
}

/// The pages that the chats take.
pub fn page_count(chats: usize) -> (pages: usize)
    ensures
        pages == pages_of(chats as nat),
{
    if chats == 0 {
        return 1;
    }
    (chats - 1) / CHAT_HISTORY_PAGE_SIZE + 1
}

/// The page to show in place of `page`, where there are `pages` of them, and the chat it
/// starts with.
pub fn page_to_show(page: usize, pages: usize) -> (shown: usize)
    requires
        pages > 0,
    ensures
        shown == if page < pages {
            page as int
        } else {
            pages - 1
        },
{
    if page < pages {
        page
    } else {
        pages - 1
    }
}

/// What a selection means on page `page` of `pages`, with `shown` chats on it.
pub fn choose_on_page(selection: &str, page: usize, pages: usize, shown: usize) -> (choice: PageChoice)
    requires
        page < pages,
    ensures
        choice == page_choice(selection@, page as int, pages as int, shown as nat),
{
    if is_back_selection(selection) {
        return PageChoice::Back;
    }
    if same_ignoring_ascii_case(selection, "p") {
        return if page > 0 {
            PageChoice::Turn(page - 1)
        } else {
            PageChoice::AtFirstPage
        };
    }
    if same_ignoring_ascii_case(selection, "n") {
        return if page + 1 < pages {
            PageChoice::Turn(page + 1)
        } else {
            PageChoice::AtLastPage
        };
    }
    match select_entry(selection, shown) {
        Some(index) => PageChoice::Open(index),
        None => PageChoice::Invalid,
    }
}

/// What a line typed into a saved conversation asks for.
pub fn saved_chat_input(line: &str) -> (input: SavedChatInput)
    ensures
        input == if leaves_chat(line@) {
            SavedChatInput::Leave
        } else if lower(trimmed(line@)) == lower("/clear"@) {
            SavedChatInput::Clear
        } else if line@.len() == 0 {
            SavedChatInput::Nothing
        } else {
            SavedChatInput::Message
        },
{
    if is_chat_back_command(line) {
        return SavedChatInput::Leave;
    }
    if same_ignoring_ascii_case(trim(line).as_str(), "/clear") {
        return SavedChatInput::Clear;
    }
    proof {
        reveal_strlit("");
        if line@.len() == 0 {
            assert(line@ =~= ""@);
        }
    }
    if same_text(line, "") {
        SavedChatInput::Nothing
    } else {
        SavedChatInput::Message
    }
}

/// Turning pages never leaves the history, and a chat opened from a page stands on it.
pub proof fn law_page_choice_stays_in_range(selection: Seq<char>, page: int, pages: int, shown: nat)
    requires
        0 <= page < pages <= usize::MAX,
        shown <= usize::MAX,
    ensures
        page_choice(selection, page, pages, shown) matches PageChoice::Turn(next) ==> next < pages,
        page_choice(selection, page, pages, shown) matches PageChoice::Open(index) ==> index
            < shown,
{
}

/// Every chat stands on exactly the page that its place gives it: the pages are as many
/// as needed and no more.
pub proof fn law_pages_hold_all_chats(chats: nat)
    requires
        chats > 0,
    ensures
        (pages_of(chats) - 1) * CHAT_HISTORY_PAGE_SIZE < chats <= pages_of(chats)
            * CHAT_HISTORY_PAGE_SIZE,
{
}

} // verus!
