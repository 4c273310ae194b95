//! What the `pwd` builtin prints.

use crate::fmt::{break_text, NewLine};
use vstd::prelude::*;

verus! {

/// What `pwd` prints for the current directory `path`.
pub open spec fn pwd_text_spec(newline: (bool, bool, bool, bool), path: Seq<char>) -> Seq<char> {
    break_text(newline.0) + path + break_text(newline.1)
}

/// The current directory between the output line breaks.
pub fn pwd_text(newline: &NewLine, path: &str) -> (res: String)
    ensures
        res@ == pwd_text_spec(newline@, path@),
{
    let mut res = newline.stdout_start();
    res.append(path);
    res.append(newline.stdout_end().as_str());
    res
}

} // verus!
