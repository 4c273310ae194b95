//! The result of an external command, from what it wrote.

use crate::command::{opt_view, CommandResult};
use crate::error::ShellError;
use crate::fs::{dirs_view, first_named_in_dirs, search_executable_file_in_paths, SearchDir};
use crate::text::{trim, trim_seq, utf8_to_string};
use vstd::prelude::*;
use vstd::utf8::{decode_utf8, valid_utf8};

verus! {

/// Whether `command` is an executable found in the directories `dirs`.
pub fn is_external(command: &str, dirs: &Vec<SearchDir>) -> (res: bool)
    ensures
        res == first_named_in_dirs(command@, dirs_view(dirs@), 0) is Some,
{
    search_executable_file_in_paths(command, dirs).is_some()
}

/// The text that an output stream contributes: nothing when it is empty or
/// only white space, else its text without surrounding white space.
pub open spec fn stream_text(bytes: Seq<u8>) -> Option<Seq<char>> {
    if bytes.len() == 0 || trim_seq(decode_utf8(bytes)).len() == 0 {
        None
    } else {
        Some(trim_seq(decode_utf8(bytes)))
    }
}

/// A non-empty stream that is not UTF-8.
pub open spec fn unreadable(bytes: Seq<u8>) -> bool {
    bytes.len() > 0 && !valid_utf8(bytes)
}

/// What a stream contributes, or `None` when it is not UTF-8.
fn read_stream(bytes: Vec<u8>) -> (res: Option<Option<String>>)
    ensures
        res is None <==> bytes@.len() > 0 && !valid_utf8(bytes@),
        res matches Some(t) ==> opt_view(t) == stream_text(bytes@),
{
    if bytes.len() == 0 {
        return Some(None);
    }
    let ghost b = bytes@;
    match utf8_to_string(bytes) {
        None => None,
        Some(r) => {
            let t = trim(r.as_str());
            if t.unicode_len() == 0 {
                Some(None)
            } else {
                Some(Some(t.to_owned()))
            }
        },
    }
}

/// The result of an external command from the bytes it wrote to standard
/// output and standard error: each stream's text without surrounding white
/// space, or nothing for a blank stream; fails on a stream that is not
/// UTF-8 (standard output first).
pub fn to_result(stdout: Vec<u8>, stderr: Vec<u8>) -> (res: Result<CommandResult, ShellError>)
    ensures
        match res {
            Err(e) => (unreadable(stdout@) && e is StdoutReading) || (!unreadable(stdout@)
                && unreadable(stderr@) && e is StderrReading),
            Ok(r) => !unreadable(stdout@) && !unreadable(stderr@) && r@ == (
                stream_text(stderr@),
                stream_text(stdout@),
                None::<Option<i32>>,
            ),
        },
{
    let out = match read_stream(stdout) {
        None => {
            return Err(ShellError::StdoutReading);
        },
        Some(t) => t,
    };
    let err = match read_stream(stderr) {
        None => {
            return Err(ShellError::StderrReading);
        },
        Some(t) => t,
    };
    Ok(CommandResult::new(err, out))
}

} // verus!
