//! Reading the history from a file's text, and the counting behind
//! writing it to a file.

use crate::history::{fresh_cursor, lines_text, upload_count, upload_new_index, upload_plan_spec, Log};
use crate::text::{lemma_split_nonempty, split_char, split_seq, strings_view, strs_view};
use vstd::prelude::*;

verus! {

/// How many records to write (`None` for all) and the index to note as
/// written, for an upload after `previous_index` with `current_len` records.
pub fn upload_numbers(previous_index: Option<usize>, current_len: usize) -> (res: (
    Option<usize>,
    Option<usize>,
))
    requires
        previous_index matches Some(p) ==> p < usize::MAX,
    ensures
        res == (upload_count(previous_index, current_len), upload_new_index(current_len)),
{
    let mut count: Option<usize> = None;
    let mut new_index: Option<usize> = None;
    if let Some(previous_index) = previous_index {
        if current_len > (previous_index + 1) {
            count = Some(current_len - (previous_index + 1));
        }
    }
    if current_len > 0 {
        new_index = Some(current_len - 1)
    }
    (count, new_index)
}

/// A line without the carriage return at its end, if it has one.
pub open spec fn strip_cr(l: Seq<char>) -> Seq<char> {
    if l.len() > 0 && l.last() == '\r' {
        l.drop_last()
    } else {
        l
    }
}

/// The lines of a text, as `BufRead::lines` reads them: the pieces between
/// line feeds, without the carriage return before a line feed; no empty
/// line after a final line feed.
pub open spec fn text_lines(t: Seq<char>) -> Seq<Seq<char>> {
    let parts = split_seq(t, '\n');
    let body = parts.drop_last().map_values(|l: Seq<char>| strip_cr(l));
    if parts.last().len() == 0 {
        body
    } else {
        body.push(parts.last())
    }
}

/// The lines of `text`.
pub fn read_lines(text: &str) -> (res: Vec<String>)
    ensures
        strings_view(res@) == text_lines(text@),
{
    let parts = split_char(text, '\n');
    proof {
        lemma_split_nonempty(text@, '\n');
    }
    let ghost pv = split_seq(text@, '\n');
    let ghost body = pv.drop_last().map_values(|l: Seq<char>| strip_cr(l));
    let n = parts.len();
    let mut lines: Vec<String> = Vec::new();
    let mut i: usize = 0;
    while i + 1 < n
        invariant
            pv == split_seq(text@, '\n'),
            body == pv.drop_last().map_values(|l: Seq<char>| strip_cr(l)),
            strs_view(parts@) == pv,
            n == parts.len(),
            n >= 1,
            i + 1 <= n,
            strings_view(lines@) == body.take(i as int),
        decreases n - i,
    {
        let line = parts[i];
        assert(line@ == pv[i as int]);
        let m = line.unicode_len();
        let kept = if m > 0 && line.get_char(m - 1) == '\r' {
            line.substring_char(0, m - 1)
        } else {
            line
        };
        assert(kept@ =~= strip_cr(pv[i as int]));
        let owned = kept.to_owned();
        lines.push(owned);
        assert(strings_view(lines@) =~= strings_view(lines@.drop_last()).push(owned@));
        assert(body.take(i + 1) =~= body.take(i as int).push(owned@));
        i = i + 1;
    }
    assert(body.take(i as int) =~= body);
    let last = parts[n - 1];
    assert(last@ == pv.last());
    if last.unicode_len() > 0 {
        let owned = last.to_owned();
        lines.push(owned);
        assert(strings_view(lines@) =~= body.push(owned@));
    }
    lines
}

/// Adds the lines of a history file's `text` to the history.
pub fn download_lines(log: &mut Log, text: &str)
    requires
        old(log).wf(),
    ensures
        final(log).wf(),
        final(log).records() == old(log).records() + text_lines(text@),
        final(log).uploads() == old(log).uploads(),
        text_lines(text@).len() > 0 ==> final(log).cursor() == fresh_cursor(final(log).records().len()),
        text_lines(text@).len() == 0 ==> final(log).cursor() == old(log).cursor(),
{
    let lines = read_lines(text);
    if lines.len() > 0 {
        log.add(lines);
    } else {
        assert(old(log).records() + text_lines(text@) =~= old(log).records());
    }
}

proof fn lemma_split_append_plain(s: Seq<char>, x: Seq<char>, c: char)
    requires
        !x.contains(c),
    ensures
        split_seq(s + x, c) == split_seq(s, c).update(
            split_seq(s, c).len() - 1,
            split_seq(s, c).last() + x,
        ),
        split_seq(s + x, c).len() == split_seq(s, c).len(),
    decreases x.len(),
{
    lemma_split_nonempty(s, c);
    let p = split_seq(s, c);
    if x.len() == 0 {
        assert(s + x =~= s);
        assert(p.last() + x =~= p.last());
        assert(p.update(p.len() - 1, p.last()) =~= p);
    } else {
        let y = x.drop_last();
        assert(!y.contains(c)) by {
            if y.contains(c) {
                let j = choose|j: int| 0 <= j < y.len() && y[j] == c;
                assert(x[j] == c);
            }
        }
        lemma_split_append_plain(s, y, c);
        assert((s + x).drop_last() =~= s + y);
        assert((s + x).last() == x.last());
        assert(x.last() != c) by {
            assert(x[x.len() - 1] == x.last());
        }
        let q = split_seq(s + y, c);
        assert(q.last() == p.last() + y);
        assert(q.update(q.len() - 1, q.last().push(x.last())) =~= p.update(
            p.len() - 1,
            p.last() + x,
        )) by {
            assert((p.last() + y).push(x.last()) =~= p.last() + x);
        }
    }
}

proof fn lemma_split_lines_text(records: Seq<Seq<char>>)
    requires
        forall|i: int| 0 <= i < records.len() ==> !(#[trigger] records[i]).contains('\n'),
    ensures
        split_seq(lines_text(records), '\n') == records.push(Seq::<char>::empty()),
    decreases records.len(),
{
    if records.len() == 0 {
        assert(split_seq(Seq::<char>::empty(), '\n') =~= seq![Seq::<char>::empty()]);
        assert(records.push(Seq::<char>::empty()) =~= seq![Seq::<char>::empty()]);
    } else {
        let r = records.drop_last();
        let x = records.last();
        assert(forall|i: int| 0 <= i < r.len() ==> !(#[trigger] r[i]).contains('\n')) by {
            assert forall|i: int| 0 <= i < r.len() implies !(#[trigger] r[i]).contains('\n') by {
                assert(r[i] == records[i]);
            }
        }
        lemma_split_lines_text(r);
        let l = lines_text(r);
        assert(!x.contains('\n')) by {
            assert(x == records[records.len() - 1]);
        }
        lemma_split_append_plain(l, x, '\n');
        let t = lines_text(records);
        assert(t == (l + x).push('\n')) by {
            assert(l + x + seq!['\n'] =~= (l + x).push('\n'));
        }
        assert(t.drop_last() =~= l + x);
        let p = r.push(Seq::<char>::empty());
        assert(p.last() + x =~= x);
        assert(p.update(p.len() - 1, x) =~= records);
        assert(split_seq(t, '\n') =~= records.push(Seq::<char>::empty()));
    }
}

/// What is written is read back: the lines of the text that an upload
/// writes for `records` are the records again, when no record holds a line
/// feed or ends with a carriage return.
pub proof fn lemma_read_back_written_lines(records: Seq<Seq<char>>)
    requires
        forall|i: int| 0 <= i < records.len() ==> !(#[trigger] records[i]).contains('\n'),
        forall|i: int| 0 <= i < records.len() ==> strip_cr(#[trigger] records[i]) == records[i],
    ensures
        text_lines(lines_text(records)) == records,
{
    lemma_split_lines_text(records);
    let parts = split_seq(lines_text(records), '\n');
    assert(parts.drop_last() =~= records);
    assert(parts.last().len() == 0);
    assert(records.map_values(|l: Seq<char>| strip_cr(l)) =~= records);
}

/// A history written to a file with `history -w` and read back with
/// `history -r` gives its records again (when no record holds a line feed
/// or ends with a carriage return).
pub proof fn lemma_rewrite_then_read_gives_records(
    records: Seq<Seq<char>>,
    uploads: Map<Seq<char>, usize>,
    path: Seq<char>,
)
    requires
        records.len() > 0,
        records.len() <= usize::MAX,
        forall|i: int| 0 <= i < records.len() ==> !(#[trigger] records[i]).contains('\n'),
        forall|i: int| 0 <= i < records.len() ==> strip_cr(#[trigger] records[i]) == records[i],
    ensures
        upload_plan_spec(records, uploads, path, false) matches Some((text, _)) && text_lines(text)
            == records,
{
    assert(records.skip(0) =~= records);
    lemma_read_back_written_lines(records);
}

} // verus!
