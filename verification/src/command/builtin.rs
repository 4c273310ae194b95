//! The builtins of the command runner that reports results as values:
//! `type`, `echo`, `pwd`, `cd` and `exit`.

pub mod catalog;

use crate::command::{opt_view, CommandResult};
use crate::text::{join, join_seq, str_eq, strs_view};
use vstd::prelude::*;

verus! {

/// A builtin of the command runner.
#[derive(Clone, Copy, Debug, PartialEq, Eq, Structural)]
pub enum Builtin {
    Type,
    Echo,
    Pwd,
    Cd,
    Exit,
}

/// The name of a builtin.
pub open spec fn builtin_name(b: Builtin) -> Seq<char> {
    match b {
        Builtin::Type => "type"@,
        Builtin::Echo => "echo"@,
        Builtin::Pwd => "pwd"@,
        Builtin::Cd => "cd"@,
        Builtin::Exit => "exit"@,
    }
}

/// The builtin named `command`, if any.
pub open spec fn builtin_of(command: Seq<char>) -> Option<Builtin> {
    if command == "type"@ {
        Some(Builtin::Type)
    } else if command == "echo"@ {
        Some(Builtin::Echo)
    } else if command == "pwd"@ {
        Some(Builtin::Pwd)
    } else if command == "cd"@ {
        Some(Builtin::Cd)
    } else if command == "exit"@ {
        Some(Builtin::Exit)
    } else {
        None
    }
}

/// Every builtin is found again by its name.
pub proof fn lemma_builtin_name_round_trip(b: Builtin)
    ensures
        builtin_of(builtin_name(b)) == Some(b),
{
    reveal_strlit("type");
    reveal_strlit("echo");
    reveal_strlit("pwd");
    reveal_strlit("cd");
    reveal_strlit("exit");
    assert("type"@[0] == 't' && "echo"@[0] == 'e' && "pwd"@[0] == 'p' && "cd"@[0] == 'c'
        && "exit"@[0] == 'e');
    assert("echo"@[1] == 'c' && "exit"@[1] == 'x');
}

/// The builtin named `command`, if there is one.
pub fn to_builtin(command: &str) -> (res: Option<Builtin>)
    ensures
        res == builtin_of(command@),
{
    if str_eq(command, "type") {
        Some(Builtin::Type)
    } else if str_eq(command, "echo") {
        Some(Builtin::Echo)
    } else if str_eq(command, "pwd") {
        Some(Builtin::Pwd)
    } else if str_eq(command, "cd") {
        Some(Builtin::Cd)
    } else if str_eq(command, "exit") {
        Some(Builtin::Exit)
    } else {
        None
    }
}

/// The name of `builtin`.
pub fn builtin_to_string(builtin: &Builtin) -> (res: String)
    ensures
        res@ == builtin_name(*builtin),
{
    match builtin {
        Builtin::Type => "type".to_owned(),
        Builtin::Echo => "echo".to_owned(),
        Builtin::Pwd => "pwd".to_owned(),
        Builtin::Cd => "cd".to_owned(),
        Builtin::Exit => "exit".to_owned(),
    }
}

/// What `type` reports on `command`: a builtin, the executable found at
/// `found_path` (as output), or not found (as error).
pub open spec fn command_type_spec(command: Seq<char>, found_path: Option<Seq<char>>) -> (
    Option<Seq<char>>,
    Option<Seq<char>>,
    Option<Option<i32>>,
) {
    if builtin_of(command) is Some {
        (None, Some(command + " is a shell builtin"@), None)
    } else {
        match found_path {
            Some(p) => (None, Some(command + " is "@ + p), None),
            None => (Some(command + ": not found"@), None, None),
        }
    }
}

/// The result of `type` on `command`, given the path of the executable of
/// that name found in the search paths, if any.
pub fn run_command_type(command: &str, found_path: Option<String>) -> (res: CommandResult)
    ensures
        res@ == command_type_spec(command@, opt_view(found_path)),
{
    let mut msg = command.to_owned();
    if to_builtin(command).is_some() {
        msg.append(" is a shell builtin");
        return CommandResult::new(None, Some(msg));
    }
    if let Some(path) = found_path {
        msg.append(" is ");
        msg.append(path.as_str());
        return CommandResult::new(None, Some(msg));
    }
    msg.append(": not found");
    CommandResult::new(Some(msg), None)
}

/// The result of `echo`: its arguments joined with spaces, as output.
pub fn run_command_echo(args: &Vec<&str>) -> (res: CommandResult)
    ensures
        res@ == (None::<Seq<char>>, Some(join_seq(strs_view(args@), " "@)), None::<Option<i32>>),
{
    let joined = join(args, " ");
    CommandResult::new(None, Some(joined))
}

} // verus!
