//! What the `yes` builtin prints.

use crate::fmt::{break_text, NewLine};
use vstd::prelude::*;

verus! {

/// A line that `yes` prints: `y` and a line feed, the first one after the
/// output's leading line break.
pub open spec fn yes_line_spec(newline: (bool, bool, bool, bool), is_first: bool) -> Seq<char> {
    (if is_first {
        break_text(newline.0)
    } else {
        Seq::empty()
    }) + "y\n"@
}

/// The next line of `yes`.
pub fn yes_line(newline: &NewLine, is_first: bool) -> (res: String)
    ensures
        res@ == yes_line_spec(newline@, is_first),
{
    let mut res = if is_first {
        newline.stdout_start()
    } else {
        String::new()
    };
    proof {
        if !is_first {
            reveal_strlit("");
        }
    }
    res.append("y\n");
    res
}

} // verus!
