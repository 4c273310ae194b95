//! What the `echo` builtin prints.

use crate::fmt::{break_text, NewLine};
use crate::text::{join, join_seq, strs_view};
use vstd::prelude::*;

verus! {

/// The text that `echo` prints: its arguments joined with spaces (a
/// single space without arguments), between the output line breaks.
pub open spec fn echo_text_spec(newline: (bool, bool, bool, bool), args: Option<Seq<Seq<char>>>) -> Seq<char> {
    break_text(newline.0) + match args {
        Some(a) => join_seq(a, " "@),
        None => " "@,
    } + break_text(newline.1)
}

/// The text that `echo` prints for `args`.
pub fn echo_text(newline: &NewLine, args: Option<&Vec<&str>>) -> (res: String)
    ensures
        res@ == echo_text_spec(
            newline@,
            match args {
                Some(a) => Some(strs_view(a@)),
                None => None,
            },
        ),
{
    let joined = match args {
        Some(args) => join(args, " "),
        None => " ".to_owned(),
    };
    let mut res = newline.stdout_start();
    res.append(joined.as_str());
    res.append(newline.stdout_end().as_str());
    res
}

} // verus!
