//! The arguments of the program.

use crate::address::{parsed_address, Address};
use crate::bytes::{copy_text, same_text};
use crate::sorted::views;
use vstd::prelude::*;
use vstd::slice::slice_subrange;

verus! {

/// Whether the value of the environment variable for diagnostics switches them on.
pub open spec fn switches_on(value: Seq<char>) -> bool {
    value == "1"@ || value == "true"@ || value == "yes"@ || value == "on"@
}

/// Whether an argument asks for diagnostics.
pub open spec fn is_verbose_flag(argument: Seq<char>) -> bool {
    argument == "--verbose"@ || argument == "-v"@
}

/// The arguments without those that ask for diagnostics.
pub open spec fn without_flags(arguments: Seq<Seq<char>>) -> Seq<Seq<char>>
    decreases arguments.len(),
{
    if arguments.len() == 0 {
        Seq::empty()
    } else if is_verbose_flag(arguments.last()) {
        without_flags(arguments.drop_last())
    } else {
        without_flags(arguments.drop_last()).push(arguments.last())
    }
}

/// Whether an argument asks for diagnostics.
pub open spec fn has_flag(arguments: Seq<Seq<char>>) -> bool {
    exists|i: int| 0 <= i < arguments.len() && is_verbose_flag(#[trigger] arguments[i])
}

/// Whether the value of the environment variable for diagnostics switches them on.
pub fn is_verbose_value(value: &str) -> (answer: bool)
    ensures
        answer == switches_on(value@),
{
    same_text(value, "1") || same_text(value, "true") || same_text(value, "yes") || same_text(
        value,
        "on",
    )
}

/// Takes the flags for diagnostics out of the arguments, and says whether diagnostics are
/// on, by a flag or by the environment variable.
pub fn take_verbose_flag(arguments: &mut Vec<String>, environment: Option<&str>) -> (verbose: bool)
    ensures
        views(final(arguments)@) == without_flags(views(old(arguments)@)),
        verbose == (has_flag(views(old(arguments)@)) || (environment matches Some(value)
            && switches_on(value@))),
{
    let mut kept: Vec<String> = Vec::new();
    let mut found = false;
    let mut i: usize = 0;
    let ghost given = views(arguments@);
    assert(views(kept@) =~= without_flags(given.take(0)));
    while i < arguments.len()
        invariant
            i <= arguments@.len(),
            given == views(arguments@),
            views(kept@) == without_flags(given.take(i as int)),
            found == has_flag(given.take(i as int)),
        decreases arguments@.len() - i,
    {
        let ghost so_far = given.take(i + 1);
        let ghost before = kept@;
        assert(so_far.drop_last() =~= given.take(i as int));
        assert(so_far.last() == arguments@[i as int]@);
        proof {
            if has_flag(given.take(i as int)) {
                let j = choose|j: int|
                    0 <= j < i && is_verbose_flag(#[trigger] given.take(i as int)[j]);
                assert(is_verbose_flag(so_far[j]));
            }
            if has_flag(so_far) && !is_verbose_flag(so_far.last()) {
                let j = choose|j: int| 0 <= j <= i && is_verbose_flag(#[trigger] so_far[j]);
                assert(is_verbose_flag(given.take(i as int)[j]));
            }
        }
        if same_text(arguments[i].as_str(), "--verbose") || same_text(arguments[i].as_str(), "-v") {
            assert(is_verbose_flag(so_far[i as int]));
            found = true;
        } else {
            kept.push(copy_text(arguments[i].as_str()));
            assert(views(kept@) =~= views(before).push(so_far.last()));
        }
        i += 1;
    }
    assert(given.take(i as int) =~= given);
    *arguments = kept;
    let switched_on = match environment {
        Some(value) => is_verbose_value(value),
        None => false,
    };
    switched_on || found
}

/// The arguments from a place on; none where there are fewer.
pub fn tail_args(arguments: &[String], start: usize) -> (tail: &[String])
    ensures
        tail@ == if start <= arguments@.len() {
            arguments@.skip(start as int)
        } else {
            Seq::empty()
        },
{
    let len: usize = arguments.len();
    let from: usize = if start <= len {
        start
    } else {
        len
    };
    let tail = slice_subrange(arguments, from, len);
    assert(tail@ =~= if start <= arguments@.len() {
        arguments@.skip(start as int)
    } else {
        Seq::empty()
    });
    tail
}

/// Tells a message in the first place from bootstrap addresses: the first argument is a
/// message unless it reads as an address.
pub fn split_optional_message_and_bootstrap(values: &[String]) -> (split: (
    Option<&str>,
    &[String],
))
    ensures
        if values@.len() == 0 || parsed_address(values@[0]@) is Some {
            split.0 is None && split.1@ == values@
        } else {
            &&& split.0 is Some
            &&& split.0->0@ == values@[0]@
            &&& split.1@ == values@.skip(1)
        },
{
    if values.len() == 0 {
        return (None, values);
    }
    match Address::parse(values[0].as_str()) {
        Some(_) => (None, values),
        None => {
            let rest = slice_subrange(values, 1, values.len());
            assert(rest@ =~= values@.skip(1));
            (Some(values[0].as_str()), rest)
        },
    }
}

} // verus!
