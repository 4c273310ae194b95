//! What the `type` builtin reports.

use crate::command::registry::{registry_builtin_of, Builtin};
use crate::fmt::{break_text, NewLine};
use crate::text::strs_view;
use vstd::prelude::*;

verus! {

/// The command that `type` asks about: its first argument, or the empty
/// name without arguments.
pub fn get_command(args: Option<&Vec<&str>>) -> (res: String)
    requires
        args matches Some(a) ==> a.len() > 0,
    ensures
        match args {
            Some(a) => res@ == strs_view(a@)[0],
            None => res@ == Seq::<char>::empty(),
        },
{
    if let Some(args) = args {
        args[0].to_owned()
    } else {
        String::new()
    }
}

/// What `type` reports on `command`: whether it goes to standard error,
/// and the text (a builtin, the executable found at `found_path`, or not
/// found), between the line breaks of the stream it goes to.
pub open spec fn type_report_spec(
    newline: (bool, bool, bool, bool),
    command: Seq<char>,
    found_path: Option<Seq<char>>,
) -> (bool, Seq<char>) {
    if registry_builtin_of(command) is Some {
        (false, break_text(newline.0) + command + " is a shell builtin"@ + break_text(newline.1))
    } else {
        match found_path {
            Some(p) => (false, break_text(newline.0) + command + " is "@ + p + break_text(newline.1)),
            None => (true, break_text(newline.2) + command + ": not found"@ + break_text(newline.3)),
        }
    }
}

/// What `type` reports on `command`, given the path of the executable of
/// that name found in the search paths, if any.
pub fn type_report(newline: &NewLine, command: &str, found_path: Option<String>) -> (res: (
    bool,
    String,
))
    ensures
        (res.0, res.1@) == type_report_spec(
            newline@,
            command@,
            match found_path {
                Some(p) => Some(p@),
                None => None,
            },
        ),
{
    let mut msg = command.to_owned();
    let to_stderr = if Builtin::to_builtin(command).is_some() {
        msg.append(" is a shell builtin");
        false
    } else if let Some(path) = found_path {
        msg.append(" is ");
        msg.append(path.as_str());
        false
    } else {
        msg.append(": not found");
        true
    };
    let mut text = if to_stderr {
        newline.stderr_start()
    } else {
        newline.stdout_start()
    };
    text.append(msg.as_str());
    if to_stderr {
        text.append(newline.stderr_end().as_str());
    } else {
        text.append(newline.stdout_end().as_str());
    }
    (to_stderr, text)
}

} // verus!
