//! The `exit` builtin.

use crate::command::CommandResult;
use vstd::prelude::*;

verus! {

/// The result of `exit`: the shell is to exit, with no particular status.
pub fn run_command() -> (res: CommandResult)
    ensures
        res@ == (None::<Seq<char>>, None::<Seq<char>>, Some(None::<i32>)),
{
    CommandResult::new_exit(None)
}

} // verus!
