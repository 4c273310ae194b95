//! Line breaks for builtins that print on a raw terminal.

use vstd::prelude::*;

verus! {

/// Where a builtin's output gets a raw line break (`"\r\n"`).
pub struct NewLine {
    pub stdout_start: bool,
    pub stdout_end: bool,
    pub stderr_start: bool,
    pub stderr_end: bool,
}

/// The text of a raw line break that is on (`"\r\n"`) or off (`""`).
pub open spec fn raw_break_text(on: bool) -> Seq<char> {
    if on {
        seq!['\r', '\n']
    } else {
        Seq::empty()
    }
}

/// The text of a raw line break that is on or off.
fn to_string(val: bool) -> (res: String)
    ensures
        res@ == raw_break_text(val),
{
    let mut res = String::new();
    if val {
        crate::text::push_char(&mut res, '\r');
        crate::text::push_char(&mut res, '\n');
    }
    assert(res@ =~= raw_break_text(val));
    res
}

impl NewLine {
    /// No line breaks anywhere.
    pub fn new() -> (res: NewLine)
        ensures
            !res.stdout_start && !res.stdout_end && !res.stderr_start && !res.stderr_end,
    {
        NewLine { stdout_start: false, stdout_end: false, stderr_start: false, stderr_end: false }
    }

    /// The break before standard output.
    pub fn stdout_start(&self) -> (res: String)
        ensures
            res@ == raw_break_text(self.stdout_start),
    {
        to_string(self.stdout_start)
    }

    /// The break after standard output.
    pub fn stdout_end(&self) -> (res: String)
        ensures
            res@ == raw_break_text(self.stdout_end),
    {
        to_string(self.stdout_end)
    }

    /// The break before standard error.
    pub fn stderr_start(&self) -> (res: String)
        ensures
            res@ == raw_break_text(self.stderr_start),
    {
        to_string(self.stderr_start)
    }

    /// The break after standard error.
    pub fn stderr_end(&self) -> (res: String)
        ensures
            res@ == raw_break_text(self.stderr_end),
    {
        to_string(self.stderr_end)
    }
}

} // verus!
