//! Builtin commands: their tables, their arguments and the text they produce.

pub mod builtin;
pub mod external;
pub mod fmt;
pub mod registry;

use self::registry::{registry_builtin_of, registry_names, Builtin};
use crate::text::strings_view;
use vstd::prelude::*;

verus! {

/// What a command produced: its error text, its output text, and whether
/// it asks the shell to exit (with an optional status).
pub struct CommandResult {
    error: Option<String>,
    output: Option<String>,
    exit: Option<Option<i32>>,
}

/// The view of an optional string.
pub open spec fn opt_view(s: Option<String>) -> Option<Seq<char>> {
    match s {
        Some(s) => Some(s@),
        None => None,
    }
}

impl View for CommandResult {
    type V = (Option<Seq<char>>, Option<Seq<char>>, Option<Option<i32>>);

    closed spec fn view(&self) -> (Option<Seq<char>>, Option<Seq<char>>, Option<Option<i32>>) {
        (opt_view(self.error), opt_view(self.output), self.exit)
    }
}

impl CommandResult {
    /// A result with the given error and output texts.
    pub fn new(error: Option<String>, output: Option<String>) -> (res: CommandResult)
        ensures
            res@ == (opt_view(error), opt_view(output), None::<Option<i32>>),
    {
        CommandResult { error, output, exit: None }
    }

    /// A result that asks the shell to exit, with an optional status.
    pub fn new_exit(code: Option<i32>) -> (res: CommandResult)
        ensures
            res@ == (None::<Seq<char>>, None::<Seq<char>>, Some(code)),
    {
        CommandResult { error: None, output: None, exit: Some(code) }
    }

    /// The error text, if any.
    pub fn error(&self) -> (res: Option<&str>)
        ensures
            match res {
                Some(s) => self@.0 == Some(s@),
                None => self@.0 is None,
            },
    {
        match &self.error {
            Some(s) => Some(s.as_str()),
            None => None,
        }
    }

    /// The output text, if any.
    pub fn output(&self) -> (res: Option<&str>)
        ensures
            match res {
                Some(s) => self@.1 == Some(s@),
                None => self@.1 is None,
            },
    {
        match &self.output {
            Some(s) => Some(s.as_str()),
            None => None,
        }
    }

    /// Whether the shell is to exit.
    pub fn is_exit(&self) -> (res: bool)
        ensures
            res == self@.2 is Some,
    {
        self.exit.is_some()
    }

    /// The exit status asked for, if any.
    pub fn exit_code(&self) -> (res: Option<i32>)
        ensures
            res == match self@.2 {
                Some(code) => code,
                None => None,
            },
    {
        match self.exit {
            Some(code) => code,
            None => None,
        }
    }
}

/// The builtin of the shell that `name` names, if any.
pub fn to_command(name: &str) -> (res: Option<Builtin>)
    ensures
        res == registry_builtin_of(name@),
{
    Builtin::to_builtin(name)
}

/// The names of the builtins of the shell.
pub fn get_command_list() -> (res: Vec<String>)
    ensures
        strings_view(res@) == registry_names(),
{
    Builtin::list_as_strings()
}

} // verus!
