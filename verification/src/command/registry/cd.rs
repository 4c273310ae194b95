//! The argument of the `cd` builtin.

use crate::fmt::{break_text, NewLine};
use crate::text::strs_view;
use vstd::prelude::*;

verus! {

/// The directory that `cd` changes to: its first argument, or `~` (the
/// home directory) without arguments.
pub fn get_path(args: Option<&Vec<&str>>) -> (res: String)
    requires
        args matches Some(a) ==> a.len() > 0,
    ensures
        match args {
            Some(a) => res@ == strs_view(a@)[0],
            None => res@ == "~"@,
        },
{
    if let Some(args) = args {
        args[0].to_owned()
    } else {
        "~".to_owned()
    }
}

/// What `cd` reports on a directory that cannot be read.
pub open spec fn no_such_directory_spec(newline: (bool, bool, bool, bool), path: Seq<char>) -> Seq<char> {
    break_text(newline.2) + "cd: "@ + path + ": No such file or directory"@ + break_text(newline.3)
}

/// The error that `cd` prints for `path`, between the error line breaks.
pub fn no_such_directory(newline: &NewLine, path: &str) -> (res: String)
    ensures
        res@ == no_such_directory_spec(newline@, path@),
{
    let mut res = newline.stderr_start();
    res.append("cd: ");
    res.append(path);
    res.append(": No such file or directory");
    res.append(newline.stderr_end().as_str());
    res
}

} // verus!
