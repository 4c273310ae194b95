//! Decisions of the interactive loop that do not touch the terminal.

use crate::complete::structure::Completion;
use crate::text::{join, join_seq, strs_view};
use vstd::prelude::*;

verus! {

/// Whether the loop of the shell ends.
#[derive(Clone, Copy, Debug, PartialEq, Eq, Structural)]
pub enum Exit {
    Yes,
    No,
}

/// Which way an arrow key walks the history.
#[derive(Clone, Copy, Debug, PartialEq, Eq, Structural)]
pub enum Direction {
    /// Towards older records (Up).
    Next,
    /// Towards newer records (Down).
    Prev,
}

/// What the terminal does when Tab is pressed.
pub enum CompleteReaction {
    /// Rings the bell.
    Bell,
    /// Adds the text to the input and prints it.
    Insert(String),
    /// Prints the text (the variants, then a new prompt).
    Show(String),
}

/// The variants shown under the prompt: a raw line break, the variants
/// two spaces apart, another raw line break, and a new prompt with the
/// input.
pub open spec fn more_found_spec(current: Seq<char>, found: Seq<Seq<char>>) -> Seq<char> {
    seq!['\r', '\n'] + join_seq(found, "  "@) + seq!['\r', '\n'] + "$ "@ + current
}

/// The text that shows the variants `found` under the prompt.
pub fn more_found(current: &str, found: &Vec<&str>) -> (res: String)
    ensures
        res@ == more_found_spec(current@, strs_view(found@)),
{
    let mut res = crate::fmt::new_line_raw();
    res.append(join(found, "  ").as_str());
    res.append(crate::fmt::new_line_raw().as_str());
    res.append("$ ");
    res.append(current);
    res
}

/// What Tab does with the input (`None` when there is none) and its
/// completion: the bell without either; the selection is inserted; the
/// variants are shown when Tab was also the action before, else the bell.
pub fn complete_reaction(input: Option<&str>, completion: Option<&Completion>, previous_was_complete: bool) -> (res: CompleteReaction)
    ensures
        match (input, completion) {
            (Some(i), Some(c)) => match c@.1 {
                None => res matches CompleteReaction::Insert(s) && c@.0 == Some(s@),
                Some(vs) => if previous_was_complete {
                    res matches CompleteReaction::Show(s) && s@ == more_found_spec(i@, vs)
                } else {
                    res is Bell
                },
            },
            _ => res is Bell,
        },
{
    let input = match input {
        None => {
            return CompleteReaction::Bell;
        },
        Some(i) => i,
    };
    let completion = match completion {
        None => {
            return CompleteReaction::Bell;
        },
        Some(c) => c,
    };
    let variants = completion.get_variants();
    match variants {
        None => {
            let selected = completion.get_selected().unwrap();
            CompleteReaction::Insert(selected.to_owned())
        },
        Some(found) => {
            if previous_was_complete {
                CompleteReaction::Show(more_found(input, &found))
            } else {
                CompleteReaction::Bell
            }
        },
    }
}

} // verus!
