//! The `history` builtin: its arguments and what it prints.

pub mod load;
pub mod structure;
pub mod validator;

use crate::error::ShellError;
use crate::fmt::{break_text, NewLine};
use crate::history::{lasts_start, Log};
use crate::text::{decimal_seq, strs_view, usize_to_string};
use vstd::prelude::*;

verus! {

/// One printed history line: the record's number and its text.
pub open spec fn history_entry(num: nat, command: Seq<char>) -> Seq<char> {
    "    "@ + decimal_seq(num) + "  "@ + command
}

/// The printed line of the `k`-th of the `records` shown, numbered from
/// `base + 1`: the first gets `start` before it, the last gets `end` after
/// it and the others a line feed.
pub open spec fn history_piece(
    start: Seq<char>,
    end: Seq<char>,
    base: nat,
    records: Seq<Seq<char>>,
    k: int,
) -> Seq<char> {
    (if k == 0 {
        start
    } else {
        Seq::empty()
    }) + history_entry((base + k + 1) as nat, records[k]) + (if k == records.len() - 1 {
        end
    } else {
        seq!['\n']
    })
}

/// The printed lines of the first `i` of the `records` shown.
pub open spec fn history_prefix(
    start: Seq<char>,
    end: Seq<char>,
    base: nat,
    records: Seq<Seq<char>>,
    i: int,
) -> Seq<char>
    decreases i,
{
    if i <= 0 {
        Seq::empty()
    } else {
        history_prefix(start, end, base, records, i - 1) + history_piece(start, end, base, records, i - 1)
    }
}

/// What `history` prints for `count`: the last `count` records (all of
/// them without a count), each numbered by its place in the history.
pub open spec fn print_mode_spec(
    newline: (bool, bool, bool, bool),
    records: Seq<Seq<char>>,
    count: Option<usize>,
) -> Seq<char> {
    let start = lasts_start(records.len(), count);
    let shown = records.skip(start as int);
    history_prefix(break_text(newline.0), break_text(newline.1), start, shown, shown.len() as int)
}

/// The text that `history` prints for `count`.
pub fn print_mode(newline: &NewLine, log: &Log, count: Option<usize>) -> (res: String)
    ensures
        res@ == print_mode_spec(newline@, log.records(), count),
{
    let (records, len) = log.lasts(count);
    let total = log.len();
    let base = total - len;
    let ghost shown = strs_view(records@);
    assert(shown.len() == records@.len());
    let start = newline.stdout_start();
    let end = newline.stdout_end();
    let mut text = String::new();
    let mut num = base;
    let mut i: usize = 0;
    while i < records.len()
        invariant
            shown == strs_view(records@),
            records.len() == len,
            base + len == total,
            i <= len,
            num == base + i,
            text@ == history_prefix(start@, end@, base as nat, shown, i as int),
        decreases len - i,
    {
        num = num + 1;
        if i == 0 {
            text.append(start.as_str());
        }
        text.append("    ");
        text.append(usize_to_string(num).as_str());
        text.append("  ");
        text.append(records[i]);
        if i + 1 == len {
            text.append(end.as_str());
        } else {
            crate::text::push_char(&mut text, '\n');
        }
        proof {
            let piece = history_piece(start@, end@, base as nat, shown, i as int);
            assert(text@ =~= history_prefix(start@, end@, base as nat, shown, i as int) + piece);
        }
        i = i + 1;
    }
    text
}

/// What `history` reports on arguments it refuses.
pub open spec fn error_text_spec(newline: (bool, bool, bool, bool), message: Seq<char>) -> Seq<char> {
    break_text(newline.2) + "history: "@ + message + break_text(newline.3)
}

/// The error that `history` prints for `err`, between the error line breaks.
pub fn error_text(newline: &NewLine, err: &ShellError) -> (res: String)
    ensures
        res@ == error_text_spec(newline@, err.message_spec()),
{
    let mut res = newline.stderr_start();
    res.append("history: ");
    res.append(err.message().as_str());
    res.append(newline.stderr_end().as_str());
    res
}

/// What `history` reports on a file it cannot read.
pub open spec fn missing_file_text_spec(newline: (bool, bool, bool, bool), path: Seq<char>) -> Seq<char> {
    break_text(newline.2) + "history: "@ + path + ": No such file or directory"@ + break_text(newline.3)
}

/// The error that `history -r` prints for a missing file.
pub fn missing_file_text(newline: &NewLine, path: &str) -> (res: String)
    ensures
        res@ == missing_file_text_spec(newline@, path@),
{
    let mut res = newline.stderr_start();
    res.append("history: ");
    res.append(path);
    res.append(": No such file or directory");
    res.append(newline.stderr_end().as_str());
    res
}

} // verus!
