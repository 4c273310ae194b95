//! Line breaks around the output of a command, and the control text of the
//! terminal.

use vstd::prelude::*;

verus! {

/// Where a command's output gets a line break: before or after what it
/// writes to standard output and to standard error.
pub struct NewLine {
    stdout_start: bool,
    stdout_end: bool,
    stderr_start: bool,
    stderr_end: bool,
}

/// The text of a line break that is on (`"\n"`) or off (`""`).
pub open spec fn break_text(on: bool) -> Seq<char> {
    if on {
        seq!['\n']
    } else {
        Seq::empty()
    }
}

/// The text of a line break that is on or off.
fn to_string(val: bool) -> (res: String)
    ensures
        res@ == break_text(val),
{
    let mut res = String::new();
    if val {
        crate::text::push_char(&mut res, '\n');
    }
    assert(res@ =~= break_text(val));
    res
}

impl View for NewLine {
    type V = (bool, bool, bool, bool);

    closed spec fn view(&self) -> (bool, bool, bool, bool) {
        (self.stdout_start, self.stdout_end, self.stderr_start, self.stderr_end)
    }
}

impl NewLine {
    /// No line breaks anywhere.
    pub fn new() -> (res: NewLine)
        ensures
            res@ == (false, false, false, false),
    {
        NewLine { stdout_start: false, stdout_end: false, stderr_start: false, stderr_end: false }
    }

    /// The break before standard output.
    pub fn stdout_start(&self) -> (res: String)
        ensures
            res@ == break_text(self@.0),
    {
        to_string(self.stdout_start)
    }

    /// The break after standard output.
    pub fn stdout_end(&self) -> (res: String)
        ensures
            res@ == break_text(self@.1),
    {
        to_string(self.stdout_end)
    }

    /// The break before standard error.
    pub fn stderr_start(&self) -> (res: String)
        ensures
            res@ == break_text(self@.2),
    {
        to_string(self.stderr_start)
    }

    /// The break after standard error.
    pub fn stderr_end(&self) -> (res: String)
        ensures
            res@ == break_text(self@.3),
    {
        to_string(self.stderr_end)
    }

    /// Turns the break before standard output on or off.
    pub fn set_stdout_start(&mut self, value: bool)
        ensures
            final(self)@ == (value, old(self)@.1, old(self)@.2, old(self)@.3),
    {
        self.stdout_start = value;
    }

    /// Turns the break after standard output on or off.
    pub fn set_stdout_end(&mut self, value: bool)
        ensures
            final(self)@ == (old(self)@.0, value, old(self)@.2, old(self)@.3),
    {
        self.stdout_end = value;
    }

    /// Turns the break before standard error on or off.
    pub fn set_stderr_start(&mut self, value: bool)
        ensures
            final(self)@ == (old(self)@.0, old(self)@.1, value, old(self)@.3),
    {
        self.stderr_start = value;
    }

    /// Turns the break after standard error on or off.
    pub fn set_stderr_end(&mut self, value: bool)
        ensures
            final(self)@ == (old(self)@.0, old(self)@.1, old(self)@.2, value),
    {
        self.stderr_end = value;
    }
}

/// The terminal bell.
pub fn bell() -> (res: String)
    ensures
        res@ == seq!['\x07'],
{
    let mut res = String::new();
    crate::text::push_char(&mut res, '\x07');
    res
}

/// A line break in raw terminal mode, which does not return the cursor by
/// itself.
pub fn new_line_raw() -> (res: String)
    ensures
        res@ == seq!['\r', '\n'],
{
    let mut res = String::new();
    crate::text::push_char(&mut res, '\r');
    crate::text::push_char(&mut res, '\n');
    res
}

} // verus!
