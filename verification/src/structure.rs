//! Small containers of the shell: a cursor that walks indices from the
//! newest to the oldest, and a map from names to indices.

use crate::text::str_eq;
use vstd::prelude::*;

verus! {

/// A cursor over the indices `0..=last`, starting before `last` and moving
/// towards `0` with `next` and back towards `last` with `prev`.
pub struct RevIter {
    last: usize,
    current: Option<usize>,
}

/// The state of a cursor: its last index and where it stands.
pub type RevIterView = (usize, Option<usize>);

/// The state after `next` and what it returns.
pub open spec fn rev_next(s: RevIterView) -> (RevIterView, Option<usize>) {
    match s.1 {
        None => ((s.0, Some(s.0)), Some(s.0)),
        Some(i) => if i == 0 {
            (s, None)
        } else {
            ((s.0, Some((i - 1) as usize)), Some((i - 1) as usize))
        },
    }
}

/// The state after `prev` and what it returns.
pub open spec fn rev_prev(s: RevIterView) -> (RevIterView, Option<usize>) {
    match s.1 {
        None => (s, None),
        Some(i) => if i < s.0 {
            ((s.0, Some((i + 1) as usize)), Some((i + 1) as usize))
        } else {
            (s, None)
        },
    }
}

/// A fresh walk starts at the newest index: its first step gives `last`.
pub proof fn lemma_fresh_walk_starts_at_last(last: usize)
    ensures
        rev_next((last, None)) == ((last, Some(last)), Some(last)),
{
}

/// Stepping back undoes a step forward: after `next` moves from `i`
/// (not `0`) to `i - 1`, `prev` returns to `i` and gives it.
pub proof fn lemma_prev_undoes_next(s: RevIterView)
    requires
        s.1 matches Some(i) && 0 < i <= s.0,
    ensures
        rev_prev(rev_next(s).0) == (s, s.1),
{
}

/// Stepping forward undoes a step back: after `prev` moves from `i`
/// (below `last`) to `i + 1`, `next` returns to `i` and gives it.
pub proof fn lemma_next_undoes_prev(s: RevIterView)
    requires
        s.1 matches Some(i) && i < s.0,
    ensures
        rev_next(rev_prev(s).0) == (s, s.1),
{
}

impl View for RevIter {
    type V = RevIterView;

    closed spec fn view(&self) -> RevIterView {
        (self.last, self.current)
    }
}

impl RevIter {
    /// The cursor stands within `0..=last`.
    pub open spec fn wf(&self) -> bool {
        self@.1 matches Some(i) ==> i <= self@.0
    }

    /// A cursor over `0..=last` that has not moved yet.
    pub fn new(last: usize) -> (res: RevIter)
        ensures
            res@ == (last, None::<usize>),
            res.wf(),
    {
        RevIter { last, current: None }
    }

    /// Moves towards `0`: the first call gives `last`; at `0` it stays
    /// and gives nothing.
    pub fn next(&mut self) -> (res: Option<usize>)
        requires
            old(self).wf(),
        ensures
            (final(self)@, res) == rev_next(old(self)@),
            final(self).wf(),
    {
        match self.current {
            None => {
                self.current = Some(self.last);
                Some(self.last)
            },
            Some(i) => {
                if i == 0 {
                    None
                } else {
                    self.current = Some(i - 1);
                    Some(i - 1)
                }
            },
        }
    }

    /// Moves back towards `last`; at `last`, or before the first `next`,
    /// it stays and gives nothing.
    pub fn prev(&mut self) -> (res: Option<usize>)
        requires
            old(self).wf(),
        ensures
            (final(self)@, res) == rev_prev(old(self)@),
            final(self).wf(),
    {
        match self.current {
            None => None,
            Some(i) => {
                if i < self.last {
                    self.current = Some(i + 1);
                    Some(i + 1)
                } else {
                    None
                }
            },
        }
    }
}

/// A map from names to indices.
pub struct KeyValue {
    entries: Vec<(String, usize)>,
}

/// The value of the first entry of `entries` (from index `from` on) whose
/// key is `key`.
pub open spec fn lookup(entries: Seq<(Seq<char>, usize)>, key: Seq<char>, from: int) -> Option<usize>
    decreases entries.len() - from,
{
    if from < 0 || from >= entries.len() {
        None
    } else if entries[from].0 == key {
        Some(entries[from].1)
    } else {
        lookup(entries, key, from + 1)
    }
}

/// The views of the entries.
pub open spec fn entries_view(v: Seq<(String, usize)>) -> Seq<(Seq<char>, usize)> {
    v.map_values(|e: (String, usize)| (e.0@, e.1))
}

/// The map that `entries` stand for.
pub open spec fn entries_map(entries: Seq<(Seq<char>, usize)>) -> Map<Seq<char>, usize> {
    Map::new(|k: Seq<char>| lookup(entries, k, 0) is Some, |k: Seq<char>| lookup(entries, k, 0)->0)
}

proof fn lemma_lookup_update(entries: Seq<(Seq<char>, usize)>, key: Seq<char>, other: Seq<char>, i: int, v: usize, from: int)
    requires
        0 <= from <= i < entries.len(),
        entries[i].0 == key,
        forall|j: int| from <= j < i ==> entries[j].0 != key,
    ensures
        lookup(entries.update(i, (key, v)), other, from) == if other == key {
            Some(v)
        } else {
            lookup(entries, other, from)
        },
    decreases i - from,
{
    let updated = entries.update(i, (key, v));
    if from < i {
        lemma_lookup_update(entries, key, other, i, v, from + 1);
        assert(updated[from] == entries[from]);
    } else {
        lemma_lookup_agree(updated, entries, other, i + 1);
    }
}

proof fn lemma_lookup_agree(a: Seq<(Seq<char>, usize)>, b: Seq<(Seq<char>, usize)>, key: Seq<char>, from: int)
    requires
        0 <= from,
        a.len() == b.len(),
        forall|j: int| from <= j < a.len() ==> a[j] == b[j],
    ensures
        lookup(a, key, from) == lookup(b, key, from),
    decreases a.len() - from,
{
    if from < a.len() {
        lemma_lookup_agree(a, b, key, from + 1);
    }
}

proof fn lemma_lookup_push(entries: Seq<(Seq<char>, usize)>, key: Seq<char>, other: Seq<char>, v: usize, from: int)
    requires
        0 <= from <= entries.len(),
        forall|j: int| from <= j < entries.len() ==> entries[j].0 != key,
    ensures
        lookup(entries.push((key, v)), other, from) == if other == key {
            Some(v)
        } else {
            lookup(entries, other, from)
        },
    decreases entries.len() - from,
{
    let pushed = entries.push((key, v));
    if from < entries.len() {
        lemma_lookup_push(entries, key, other, v, from + 1);
        assert(pushed[from] == entries[from]);
    } else {
        assert(lookup(pushed, other, from + 1) is None);
        assert(lookup(entries, other, from) is None);
    }
}

impl View for KeyValue {
    type V = Map<Seq<char>, usize>;

    closed spec fn view(&self) -> Map<Seq<char>, usize> {
        entries_map(entries_view(self.entries@))
    }
}

impl KeyValue {
    /// An empty map.
    pub fn new() -> (res: KeyValue)
        ensures
            res@ == Map::<Seq<char>, usize>::empty(),
    {
        let res = KeyValue { entries: Vec::new() };
        assert(res@ =~= Map::<Seq<char>, usize>::empty());
        res
    }

    /// The index of `key`, if it has one.
    pub fn get(&self, key: &str) -> (res: Option<usize>)
        ensures
            res == if self@.contains_key(key@) {
                Some(self@[key@])
            } else {
                None
            },
    {
        let ghost ev = entries_view(self.entries@);
        let mut i: usize = 0;
        while i < self.entries.len()
            invariant
                ev == entries_view(self.entries@),
                i <= self.entries.len(),
                lookup(ev, key@, 0) == lookup(ev, key@, i as int),
            decreases self.entries.len() - i,
        {
            assert(ev[i as int] == (self.entries@[i as int].0@, self.entries@[i as int].1));
            if str_eq(self.entries[i].0.as_str(), key) {
                return Some(self.entries[i].1);
            }
            i = i + 1;
        }
        None
    }

    /// Gives `key` the index `value`.
    pub fn set(&mut self, key: &str, value: usize)
        ensures
            final(self)@ == old(self)@.insert(key@, value),
    {
        let ghost ev = entries_view(self.entries@);
        let mut i: usize = 0;
        while i < self.entries.len()
            invariant
                ev == entries_view(self.entries@),
                entries_map(ev) == old(self)@,
                i <= self.entries.len(),
                forall|j: int| 0 <= j < i ==> ev[j].0 != key@,
            decreases self.entries.len() - i,
        {
            assert(ev[i as int] == (self.entries@[i as int].0@, self.entries@[i as int].1));
            if str_eq(self.entries[i].0.as_str(), key) {
                let owned = key.to_owned();
                self.entries.set(i, (owned, value));
                proof {
                    assert(entries_view(self.entries@) =~= ev.update(i as int, (key@, value)));
                    assert forall|k: Seq<char>| #[trigger] lookup(entries_view(self.entries@), k, 0)
                        == if k == key@ {
                        Some(value)
                    } else {
                        lookup(ev, k, 0)
                    } by {
                        lemma_lookup_update(ev, key@, k, i as int, value, 0);
                    }
                    assert(self@ =~= old(self)@.insert(key@, value));
                }
                return;
            }
            i = i + 1;
        }
        let owned = key.to_owned();
        self.entries.push((owned, value));
        proof {
            assert(entries_view(self.entries@) =~= ev.push((key@, value)));
            assert forall|k: Seq<char>| #[trigger] lookup(entries_view(self.entries@), k, 0) == if k
                == key@ {
                Some(value)
            } else {
                lookup(ev, k, 0)
            } by {
                lemma_lookup_push(ev, key@, k, value, 0);
            }
            assert(self@ =~= old(self)@.insert(key@, value));
        }
    }
}

} // verus!
