//! The command history: the records of what was run, a cursor to walk
//! them from the newest, and how far each history file has been written.

pub mod load;

use crate::structure::{rev_next, rev_prev, KeyValue, RevIter, RevIterView};
use crate::text::{strings_view, strs_view};
use vstd::prelude::*;

verus! {

/// The history of the shell.
pub struct Log {
    data: Vec<String>,
    navigator: RevIter,
    uploads: KeyValue,
}

/// The index of the first record that `lasts(count)` gives for `len`
/// records: the last `count` of them when there are more than `count`.
pub open spec fn lasts_start(len: nat, count: Option<usize>) -> nat {
    match count {
        Some(c) => if len > 0 && c < len {
            (len - c) as nat
        } else {
            0
        },
        None => 0,
    }
}

/// The cursor position of a fresh walk over `len` records.
pub open spec fn fresh_cursor(len: nat) -> RevIterView {
    (if len > 0 {
        (len - 1) as usize
    } else {
        0
    }, None)
}

enum Direction {
    Next,
    Prev,
}

/// One step of walking `records` from `cursor`, towards older records
/// when `up`: the cursor after it and the record reached, if any.
pub open spec fn walk_step(records: Seq<Seq<char>>, cursor: RevIterView, up: bool) -> (RevIterView, Option<Seq<char>>) {
    if records.len() == 0 {
        (cursor, None)
    } else {
        let s = if up {
            rev_next(cursor)
        } else {
            rev_prev(cursor)
        };
        (s.0, match s.1 {
            Some(i) => Some(records[i as int]),
            None => None,
        })
    }
}

/// The records that a run of steps (towards older records when `true`)
/// reaches from `cursor`.
pub open spec fn walk(records: Seq<Seq<char>>, cursor: RevIterView, ups: Seq<bool>) -> Seq<Option<Seq<char>>>
    decreases ups.len(),
{
    if ups.len() == 0 {
        Seq::empty()
    } else {
        let st = walk_step(records, cursor, ups[0]);
        seq![st.1] + walk(records, st.0, ups.drop_first())
    }
}

/// The view of an optional record.
pub open spec fn opt_record(r: Option<String>) -> Option<Seq<char>> {
    match r {
        Some(s) => Some(s@),
        None => None,
    }
}

impl Log {
    /// The records, oldest first.
    pub closed spec fn records(&self) -> Seq<Seq<char>> {
        strings_view(self.data@)
    }

    /// Where the walk over the records stands.
    pub closed spec fn cursor(&self) -> RevIterView {
        self.navigator@
    }

    /// For each history file, the index of the last record written to it.
    pub closed spec fn uploads(&self) -> Map<Seq<char>, usize> {
        self.uploads@
    }

    /// The walk stays within the records.
    pub closed spec fn wf(&self) -> bool {
        &&& self.navigator.wf()
        &&& self.navigator@.0 == fresh_cursor(self.data@.len()).0
    }

    /// An empty history.
    pub fn new() -> (res: Log)
        ensures
            res.wf(),
            res.records() == Seq::<Seq<char>>::empty(),
            res.cursor() == fresh_cursor(0),
            res.uploads() == Map::<Seq<char>, usize>::empty(),
    {
        let res = Log { data: Vec::with_capacity(50), navigator: RevIter::new(0), uploads: KeyValue::new() };
        assert(res.records() =~= Seq::<Seq<char>>::empty());
        res
    }

    /// Appends `values` to the records and starts a fresh walk from the
    /// newest one.
    pub fn add(&mut self, values: Vec<String>)
        requires
            old(self).wf(),
            old(self).records().len() + values.len() > 0,
        ensures
            final(self).wf(),
            final(self).records() == old(self).records() + strings_view(values@),
            final(self).cursor() == fresh_cursor(final(self).records().len()),
            final(self).uploads() == old(self).uploads(),
    {
        let mut values = values;
        let ghost added = strings_view(values@);
        self.data.append(&mut values);
        assert(strings_view(self.data@) =~= old(self).records() + added);
        self.navigator = RevIter::new(self.data.len() - 1);
    }

    /// The last `count` records (all of them without a count, or when
    /// there are no more than `count`), oldest first, and how many they are.
    pub fn lasts(&self, count: Option<usize>) -> (res: (Vec<&str>, usize))
        ensures
            strs_view(res.0@) == self.records().skip(lasts_start(self.records().len(), count) as int),
            res.1 == self.records().len() - lasts_start(self.records().len(), count),
    {
        let mut start: usize = 0;
        let mut len = self.data.len();
        if let Some(count) = count {
            if len > 0 && count < len {
                start = len - count;
                len = len - start;
            }
        }
        let mut records: Vec<&str> = Vec::new();
        let mut i: usize = start;
        while i < self.data.len()
            invariant
                start <= i <= self.data.len(),
                strs_view(records@) == strings_view(self.data@).subrange(start as int, i as int),
            decreases self.data.len() - i,
        {
            let record = self.data[i].as_str();
            records.push(record);
            assert(strs_view(records@) =~= strs_view(records@.drop_last()).push(record@));
            assert(strings_view(self.data@).subrange(start as int, i + 1) =~= strings_view(
                self.data@,
            ).subrange(start as int, i as int).push(record@));
            i = i + 1;
        }
        assert(strings_view(self.data@).subrange(start as int, self.data.len() as int)
            =~= self.records().skip(start as int));
        (records, len)
    }

    /// Moves the walk towards the oldest record and gives the record
    /// reached (the newest one on a fresh walk).
    pub fn next(&mut self) -> (res: Option<String>)
        requires
            old(self).wf(),
        ensures
            final(self).wf(),
            final(self).records() == old(self).records(),
            final(self).uploads() == old(self).uploads(),
            old(self).records().len() == 0 ==> res is None && final(self).cursor() == old(
                self,
            ).cursor(),
            old(self).records().len() > 0 ==> {
                &&& final(self).cursor() == rev_next(old(self).cursor()).0
                &&& match rev_next(old(self).cursor()).1 {
                    Some(i) => 0 <= i < old(self).records().len() && (res matches Some(r) && r@
                        == old(self).records()[i as int]),
                    None => res is None,
                }
            },
            res matches Some(r) ==> old(self).records().contains(r@),
            (final(self).cursor(), opt_record(res)) == walk_step(old(self).records(), old(self).cursor(), true),
    {
        if let Some(index) = self.move_index(Direction::Next) {
            let record = self.data[index].clone();
            assert(old(self).records()[index as int] == record@);
            Some(record)
        } else {
            None
        }
    }

    /// Moves the walk back towards the newest record and gives the record
    /// reached.
    pub fn prev(&mut self) -> (res: Option<String>)
        requires
            old(self).wf(),
        ensures
            final(self).wf(),
            final(self).records() == old(self).records(),
            final(self).uploads() == old(self).uploads(),
            old(self).records().len() == 0 ==> res is None && final(self).cursor() == old(
                self,
            ).cursor(),
            old(self).records().len() > 0 ==> {
                &&& final(self).cursor() == rev_prev(old(self).cursor()).0
                &&& match rev_prev(old(self).cursor()).1 {
                    Some(i) => 0 <= i < old(self).records().len() && (res matches Some(r) && r@
                        == old(self).records()[i as int]),
                    None => res is None,
                }
            },
            res matches Some(r) ==> old(self).records().contains(r@),
            (final(self).cursor(), opt_record(res)) == walk_step(old(self).records(), old(self).cursor(), false),
    {
        if let Some(index) = self.move_index(Direction::Prev) {
            let record = self.data[index].clone();
            assert(old(self).records()[index as int] == record@);
            Some(record)
        } else {
            None
        }
    }

    fn move_index(&mut self, direction: Direction) -> (res: Option<usize>)
        requires
            old(self).wf(),
        ensures
            final(self).wf(),
            final(self).data@ == old(self).data@,
            final(self).uploads@ == old(self).uploads@,
            old(self).data@.len() == 0 ==> res is None && final(self).navigator@ == old(
                self,
            ).navigator@,
            old(self).data@.len() > 0 ==> (final(self).navigator@, res) == match direction {
                Direction::Next => rev_next(old(self).navigator@),
                Direction::Prev => rev_prev(old(self).navigator@),
            },
            res matches Some(i) ==> i < old(self).data@.len(),
    {
        if self.data.len() == 0 {
            return None;
        }
        match direction {
            Direction::Next => self.navigator.next(),
            Direction::Prev => self.navigator.prev(),
        }
    }

    /// Starts a fresh walk from the newest record.
    pub fn reset(&mut self)
        requires
            old(self).wf(),
        ensures
            final(self).wf(),
            final(self).records() == old(self).records(),
            final(self).uploads() == old(self).uploads(),
            final(self).cursor() == fresh_cursor(old(self).records().len()),
    {
        let mut last_index: usize = 0;
        if self.data.len() != 0 {
            last_index = self.data.len() - 1;
        }
        self.navigator = RevIter::new(last_index);
    }

    /// How many records there are.
    pub fn len(&self) -> (res: usize)
        ensures
            res == self.records().len(),
    {
        self.data.len()
    }

    /// The index of the last record written to `file_path`, if any.
    pub fn get_upload_index(&self, file_path: &str) -> (res: Option<usize>)
        ensures
            res == if self.uploads().contains_key(file_path@) {
                Some(self.uploads()[file_path@])
            } else {
                None
            },
    {
        self.uploads.get(file_path)
    }

    /// Notes that the records up to `index` were written to `file_path`.
    pub fn set_upload_index(&mut self, file_path: &str, index: usize)
        requires
            old(self).wf(),
        ensures
            final(self).wf(),
            final(self).records() == old(self).records(),
            final(self).cursor() == old(self).cursor(),
            final(self).uploads() == old(self).uploads().insert(file_path@, index),
    {
        self.uploads.set(file_path, index)
    }
}


/// How many of the newest records an upload writes (`None` for all of
/// them), given the index last written and how many records there are.
pub open spec fn upload_count(previous_index: Option<usize>, current_len: usize) -> Option<usize> {
    match previous_index {
        Some(p) => if current_len > p + 1 {
            Some((current_len - (p + 1)) as usize)
        } else {
            None
        },
        None => None,
    }
}

/// The index of the newest record, which an upload notes as written.
pub open spec fn upload_new_index(current_len: usize) -> Option<usize> {
    if current_len > 0 {
        Some((current_len - 1) as usize)
    } else {
        None
    }
}

/// How many records to write (`None` for all) and the index to note as
/// written, for an upload after `previous_index` with `current_len` records.
pub fn upload_numbers(previous_index: Option<usize>, current_len: usize) -> (res: (
    Option<usize>,
    Option<usize>,
))
    requires
        previous_index matches Some(p) ==> p < usize::MAX,
    ensures
        res == (upload_count(previous_index, current_len), upload_new_index(current_len)),
{
    let mut count: Option<usize> = None;
    let mut new_index: Option<usize> = None;
    if let Some(previous_index) = previous_index {
        if current_len > (previous_index + 1) {
            count = Some(current_len - (previous_index + 1));
        }
    }
    if current_len > 0 {
        new_index = Some(current_len - 1)
    }
    (count, new_index)
}

/// The lines of `records`, each ended by `\n`.
pub open spec fn lines_text(records: Seq<Seq<char>>) -> Seq<char>
    decreases records.len(),
{
    if records.len() == 0 {
        Seq::empty()
    } else {
        lines_text(records.drop_last()) + records.last() + seq!['\n']
    }
}

/// What an upload of `log` to `file_path` writes and the index it then
/// notes: nothing for an empty history; with `append`, the records after
/// the index noted for the file; otherwise all records.
pub open spec fn upload_plan_spec(
    records: Seq<Seq<char>>,
    uploads: Map<Seq<char>, usize>,
    file_path: Seq<char>,
    append: bool,
) -> Option<(Seq<char>, usize)> {
    let previous = if append && uploads.contains_key(file_path) {
        Some(uploads[file_path])
    } else {
        None
    };
    let len = records.len() as usize;
    match upload_new_index(len) {
        None => None,
        Some(new_index) => Some(
            (
                lines_text(records.skip(lasts_start(records.len(), upload_count(previous, len)) as int)),
                new_index,
            ),
        ),
    }
}

/// The text that an upload of the history to `file_path` writes, and the
/// index to note for the file once it is written; nothing when the history
/// is empty.
pub fn upload_plan(log: &Log, file_path: &str, append: bool) -> (res: Option<(String, usize)>)
    requires
        log.uploads().dom().contains(file_path@) ==> log.uploads()[file_path@] < usize::MAX,
    ensures
        match res {
            Some((text, index)) => upload_plan_spec(log.records(), log.uploads(), file_path@, append)
                == Some((text@, index)),
            None => upload_plan_spec(log.records(), log.uploads(), file_path@, append) is None,
        },
{
    let previous_index = if append {
        log.get_upload_index(file_path)
    } else {
        None
    };
    let (count, new_index) = upload_numbers(previous_index, log.len());
    let new_index = match new_index {
        None => {
            return None;
        },
        Some(i) => i,
    };
    let (records, _) = log.lasts(count);
    let mut text = String::new();
    let mut i: usize = 0;
    while i < records.len()
        invariant
            i <= records.len(),
            text@ == lines_text(strs_view(records@).take(i as int)),
        decreases records.len() - i,
    {
        assert(strs_view(records@).take(i + 1).drop_last() =~= strs_view(records@).take(i as int));
        text.append(records[i]);
        crate::text::push_char(&mut text, '\n');
        i = i + 1;
    }
    assert(strs_view(records@).take(records.len() as int) =~= strs_view(records@));
    Some((text, new_index))
}


/// Reading an index back after noting it gives what was noted, and noting
/// an index for one file leaves the others as they were.
pub proof fn lemma_upload_index_read_after_write(
    uploads: Map<Seq<char>, usize>,
    path: Seq<char>,
    index: usize,
    other: Seq<char>,
)
    ensures
        uploads.insert(path, index).contains_key(path) && uploads.insert(path, index)[path] == index,
        other != path ==> (uploads.insert(path, index).contains_key(other) == uploads.contains_key(other)
            && uploads.insert(path, index)[other] == uploads[other]),
{
}

/// After an upload has noted the newest of `records` for a file, an
/// appending upload once `added` records have come writes exactly those
/// records and notes the new newest one.
pub proof fn lemma_append_writes_only_new_records(
    records: Seq<Seq<char>>,
    added: Seq<Seq<char>>,
    uploads: Map<Seq<char>, usize>,
    path: Seq<char>,
)
    requires
        records.len() > 0,
        added.len() > 0,
        records.len() + added.len() <= usize::MAX,
    ensures
        upload_plan_spec(
            records + added,
            uploads.insert(path, (records.len() - 1) as usize),
            path,
            true,
        ) == Some((lines_text(added), (records.len() + added.len() - 1) as usize)),
{
    let all = records + added;
    let noted = uploads.insert(path, (records.len() - 1) as usize);
    assert(noted.contains_key(path) && noted[path] == (records.len() - 1) as usize);
    let len = all.len() as usize;
    assert(upload_count(Some((records.len() - 1) as usize), len) == Some(added.len() as usize));
    assert(lasts_start(all.len(), Some(added.len() as usize)) == records.len());
    assert(all.skip(records.len() as int) =~= added);
}

/// After `reset` the history walks as it does right after the latest
/// `add` (or `new`): both leave the cursor of a fresh walk, so any run of
/// `next` and `prev` reaches the same records.
pub proof fn lemma_reset_walks_as_after_add(
    records: Seq<Seq<char>>,
    after_add: RevIterView,
    after_reset: RevIterView,
    ups: Seq<bool>,
)
    requires
        after_add == fresh_cursor(records.len()),
        after_reset == fresh_cursor(records.len()),
    ensures
        walk(records, after_reset, ups) == walk(records, after_add, ups),
{
}

/// Noting the index of each of `notes` in turn, the latest last.
pub open spec fn note_all(uploads: Map<Seq<char>, usize>, notes: Seq<(Seq<char>, usize)>) -> Map<Seq<char>, usize>
    decreases notes.len(),
{
    if notes.len() == 0 {
        uploads
    } else {
        note_all(uploads, notes.drop_last()).insert(notes.last().0, notes.last().1)
    }
}

/// A noted index reads back until the same file is noted again: noting
/// other files in between leaves it (and the other methods of `Log` keep
/// the noted indices unchanged).
pub proof fn lemma_noted_index_persists(
    uploads: Map<Seq<char>, usize>,
    path: Seq<char>,
    index: usize,
    notes: Seq<(Seq<char>, usize)>,
)
    requires
        forall|k: int| 0 <= k < notes.len() ==> (#[trigger] notes[k]).0 != path,
    ensures
        note_all(uploads.insert(path, index), notes).contains_key(path),
        note_all(uploads.insert(path, index), notes)[path] == index,
    decreases notes.len(),
{
    if notes.len() > 0 {
        assert forall|k: int| 0 <= k < notes.drop_last().len() implies (#[trigger] notes.drop_last()[k]).0 != path by {
            assert(notes.drop_last()[k] == notes[k]);
        }
        lemma_noted_index_persists(uploads, path, index, notes.drop_last());
        assert(notes.last() == notes[notes.len() - 1]);
    }
}

} // verus!
