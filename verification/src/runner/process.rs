//! A forked process as the shell keeps it, and the argument list it
//! executes.

use crate::text::{strings_view, strs_view};
use vstd::prelude::*;

verus! {

/// A process made by forking: in the parent it holds the child's id, in
/// the child zero.
pub struct Fork {
    pid: u32,
}

impl Fork {
    /// The process id the fork returned (zero in the child).
    pub closed spec fn pid_spec(&self) -> u32 {
        self.pid
    }

    /// The fork from the status that forking returned: a process id (zero
    /// in the child), or a negative status when forking failed.
    pub fn from_status(status: i32) -> (res: Option<Fork>)
        ensures
            status >= 0 ==> (res matches Some(f) && f.pid_spec() == status as u32),
            status < 0 ==> res is None,
    {
        if status >= 0 {
            Some(Fork { pid: status as u32 })
        } else {
            None
        }
    }

    /// Whether this is the child process.
    pub fn is_child(&self) -> (res: bool)
        ensures
            res == (self.pid_spec() == 0),
    {
        self.pid == 0
    }

    /// The process id.
    pub fn pid(&self) -> (res: u32)
        ensures
            res == self.pid_spec(),
    {
        self.pid
    }
}

/// The argument list that executes `bin`: its name, then its arguments.
pub fn exec_args(bin: &str, args: Option<&Vec<&str>>) -> (res: Vec<String>)
    ensures
        strings_view(res@) == seq![bin@] + match args {
            Some(a) => strs_view(a@),
            None => Seq::empty(),
        },
{
    let mut merged: Vec<String> = Vec::new();
    merged.push(bin.to_owned());
    let ghost first = strings_view(merged@);
    assert(first =~= seq![bin@]);
    if let Some(args) = args {
        let mut i: usize = 0;
        while i < args.len()
            invariant
                i <= args.len(),
                strings_view(merged@) == seq![bin@] + strs_view(args@).take(i as int),
            decreases args.len() - i,
        {
            let a = args[i].to_owned();
            merged.push(a);
            assert(strings_view(merged@) =~= strings_view(merged@.drop_last()).push(a@));
            assert(strs_view(args@).take(i + 1) =~= strs_view(args@).take(i as int).push(a@));
            assert(seq![bin@] + strs_view(args@).take(i + 1) =~= (seq![bin@] + strs_view(args@).take(
                i as int,
            )).push(a@));
            i = i + 1;
        }
        assert(strs_view(args@).take(args.len() as int) =~= strs_view(args@));
    } else {
        assert(strings_view(merged@) =~= seq![bin@] + Seq::<Seq<char>>::empty());
    }
    merged
}

} // verus!
