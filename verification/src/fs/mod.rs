//! Searching directories for files, over what a directory listing shows:
//! each entry's name, path and metadata, each of which may be missing
//! (a name or path that is not UTF-8, metadata that could not be read).

pub mod find;
pub mod write;

use crate::text::{has_prefix, has_suffix, starts_with, str_eq, strings_view};
use vstd::prelude::*;

verus! {

/// The metadata of a directory entry that the searches read.
#[derive(Clone, Copy, Debug)]
pub struct FileMeta {
    pub is_file: bool,
    pub is_dir: bool,
    pub is_symlink: bool,
    /// The Unix permission bits.
    pub mode: u32,
}

/// A directory entry as a listing shows it.
#[derive(Clone, Debug)]
pub struct DirEntryInfo {
    /// The file name, when it is UTF-8.
    pub name: Option<String>,
    /// The full path, when it is UTF-8.
    pub path: Option<String>,
    /// The metadata, when it could be read.
    pub metadata: Option<FileMeta>,
}

/// The view of a directory entry.
pub type EntryView = (Option<Seq<char>>, Option<Seq<char>>, Option<FileMeta>);

/// The view of an optional string.
pub open spec fn opt_str_view(s: Option<String>) -> Option<Seq<char>> {
    match s {
        Some(s) => Some(s@),
        None => None,
    }
}

impl View for DirEntryInfo {
    type V = EntryView;

    open spec fn view(&self) -> EntryView {
        (opt_str_view(self.name), opt_str_view(self.path), self.metadata)
    }
}

/// The views of a directory's entries.
pub open spec fn entries_view(v: Seq<DirEntryInfo>) -> Seq<EntryView> {
    v.map_values(|e: DirEntryInfo| e@)
}

/// A searched directory: its path and its entries, or `None` when it could
/// not be read.
pub struct SearchDir {
    pub path: String,
    pub entries: Option<Vec<DirEntryInfo>>,
}

/// The view of a searched directory.
pub type SearchDirView = (Seq<char>, Option<Seq<EntryView>>);

impl View for SearchDir {
    type V = SearchDirView;

    open spec fn view(&self) -> SearchDirView {
        (
            self.path@,
            match self.entries {
                Some(v) => Some(entries_view(v@)),
                None => None,
            },
        )
    }
}

/// The views of searched directories.
pub open spec fn dirs_view(v: Seq<SearchDir>) -> Seq<SearchDirView> {
    v.map_values(|d: SearchDir| d@)
}

/// Metadata as a file system gives it: an entry is not both a regular
/// file and a directory.
pub open spec fn meta_valid(m: FileMeta) -> bool {
    !(m.is_file && m.is_dir)
}

/// An entry as a directory listing gives it: valid metadata, and a path
/// (the directory joined with the name) that does not end with `/`.
pub open spec fn entry_valid(e: EntryView) -> bool {
    &&& (e.2 matches Some(m) ==> meta_valid(m))
    &&& (e.1 matches Some(p) ==> !has_suffix(p, "/"@))
}

/// Every entry of every listed directory is valid.
pub open spec fn listing_valid(dirs: Seq<SearchDirView>) -> bool {
    forall|j: int, k: int|
        0 <= j < dirs.len() && dirs[j].1 is Some && 0 <= k < dirs[j].1->0.len() ==> entry_valid(
            #[trigger] dirs[j].1->0[k],
        )
}

/// A file that some user may execute: not a directory, with an execute bit.
pub open spec fn executable_meta(m: FileMeta) -> bool {
    !m.is_dir && (m.mode & 0o111u32) != 0
}

/// Whether the entry is executable, or `None` when its metadata is missing.
pub fn is_executable_file(entry: &DirEntryInfo) -> (res: Option<bool>)
    ensures
        res == match entry@.2 {
            Some(m) => Some(executable_meta(m)),
            None => None::<bool>,
        },
{
    match entry.metadata {
        None => None,
        Some(m) => {
            if m.is_dir {
                Some(false)
            } else {
                Some((m.mode & 0o111u32) != 0)
            }
        },
    }
}

/// The path of the entry when it is an executable named `name`.
pub open spec fn name_equals_spec(name: Seq<char>, e: EntryView) -> Option<Seq<char>> {
    match (e.2, e.0) {
        (Some(m), Some(n)) => if executable_meta(m) && n == name {
            e.1
        } else {
            None
        },
        _ => None,
    }
}

/// The path of the entry when it is an executable named `name`.
pub fn name_equals_and_executable(name: &str, entry: &DirEntryInfo) -> (res: Option<String>)
    ensures
        opt_str_view(res) == name_equals_spec(name@, entry@),
{
    match is_executable_file(entry) {
        Some(true) => {},
        _ => {
            return None;
        },
    }
    match &entry.name {
        Some(n) => {
            if !str_eq(name, n.as_str()) {
                return None;
            }
        },
        None => {
            return None;
        },
    }
    match &entry.path {
        Some(p) => Some(p.clone()),
        None => None,
    }
}

/// The path of the entry when it is an executable whose name starts with
/// `starts_with`.
pub open spec fn name_starts_with_spec(starts_with: Seq<char>, e: EntryView) -> Option<Seq<char>> {
    match (e.2, e.0) {
        (Some(m), Some(n)) => if executable_meta(m) && has_prefix(n, starts_with) {
            e.1
        } else {
            None
        },
        _ => None,
    }
}

/// The path of the entry when it is an executable whose name starts with
/// `starts_with`.
pub fn name_starts_with_and_executable(starts_with_text: &str, entry: &DirEntryInfo) -> (res: Option<
    String,
>)
    ensures
        opt_str_view(res) == name_starts_with_spec(starts_with_text@, entry@),
{
    match is_executable_file(entry) {
        Some(true) => {},
        _ => {
            return None;
        },
    }
    match &entry.name {
        Some(n) => {
            if !starts_with(n.as_str(), starts_with_text) {
                return None;
            }
        },
        None => {
            return None;
        },
    }
    match &entry.path {
        Some(p) => Some(p.clone()),
        None => None,
    }
}

/// The path of the first entry that is an executable named `name`.
pub open spec fn first_named(name: Seq<char>, es: Seq<EntryView>, i: int) -> Option<Seq<char>>
    decreases es.len() - i,
{
    if i < 0 || i >= es.len() {
        None
    } else if name_equals_spec(name, es[i]) is Some {
        name_equals_spec(name, es[i])
    } else {
        first_named(name, es, i + 1)
    }
}

/// The path of the first entry of `entries` that is an executable named `name`.
pub fn search_executable_file_in_dir(name: &str, entries: &Vec<DirEntryInfo>) -> (res: Option<String>)
    ensures
        opt_str_view(res) == first_named(name@, entries_view(entries@), 0),
{
    let ghost ev = entries_view(entries@);
    let mut i: usize = 0;
    while i < entries.len()
        invariant
            ev == entries_view(entries@),
            i <= entries.len(),
            first_named(name@, ev, 0) == first_named(name@, ev, i as int),
        decreases entries.len() - i,
    {
        assert(ev[i as int] == entries@[i as int]@);
        if let Some(r) = name_equals_and_executable(name, &entries[i]) {
            return Some(r);
        }
        i = i + 1;
    }
    None
}

/// The path of the first executable named `name` in the readable
/// directories of `dirs` (from index `i` on), in their order.
pub open spec fn first_named_in_dirs(name: Seq<char>, dirs: Seq<SearchDirView>, i: int) -> Option<Seq<char>>
    decreases dirs.len() - i,
{
    if i < 0 || i >= dirs.len() {
        None
    } else {
        let here = match dirs[i].1 {
            Some(es) => first_named(name, es, 0),
            None => None,
        };
        if here is Some {
            here
        } else {
            first_named_in_dirs(name, dirs, i + 1)
        }
    }
}

/// Some entry of `es` is an executable named `name`.
pub open spec fn holds_named(name: Seq<char>, es: Seq<EntryView>) -> bool {
    exists|k: int| 0 <= k < es.len() && #[trigger] name_equals_spec(name, es[k]) is Some
}

proof fn lemma_first_named_entry(name: Seq<char>, es: Seq<EntryView>, i: int)
    requires
        0 <= i,
    ensures
        first_named(name, es, i) matches Some(p) ==> exists|k: int|
            i <= k < es.len() && #[trigger] name_equals_spec(name, es[k]) == Some(p) && forall|m: int|
                i <= m < k ==> name_equals_spec(name, #[trigger] es[m]) is None,
        first_named(name, es, i) is None ==> forall|k: int|
            i <= k < es.len() ==> name_equals_spec(name, #[trigger] es[k]) is None,
    decreases es.len() - i,
{
    if i < es.len() {
        lemma_first_named_entry(name, es, i + 1);
        if name_equals_spec(name, es[i]) is None {
            if let Some(p) = first_named(name, es, i) {
                let k = choose|k: int|
                    i + 1 <= k < es.len() && #[trigger] name_equals_spec(name, es[k]) == Some(p) && forall|m: int|
                        i + 1 <= m < k ==> name_equals_spec(name, #[trigger] es[m]) is None;
                assert forall|m: int| i <= m < k implies name_equals_spec(name, #[trigger] es[m]) is None by {
                }
            }
        }
    }
}

proof fn lemma_first_in_dirs(name: Seq<char>, dirs: Seq<SearchDirView>, i: int)
    requires
        0 <= i,
    ensures
        first_named_in_dirs(name, dirs, i) matches Some(p) ==> exists|j: int, k: int|
            #![trigger dirs[j].1->0[k]]
            i <= j < dirs.len() && dirs[j].1 is Some && 0 <= k < dirs[j].1->0.len() && name_equals_spec(
                name,
                dirs[j].1->0[k],
            ) == Some(p) && (forall|m: int| 0 <= m < k ==> name_equals_spec(name, #[trigger] dirs[j].1->0[m]) is None)
                && forall|l: int|
                i <= l < j && #[trigger] dirs[l].1 is Some ==> !holds_named(name, dirs[l].1->0),
        first_named_in_dirs(name, dirs, i) is None ==> forall|j: int|
            i <= j < dirs.len() && #[trigger] dirs[j].1 is Some ==> !holds_named(name, dirs[j].1->0),
    decreases dirs.len() - i,
{
    if i < dirs.len() {
        lemma_first_in_dirs(name, dirs, i + 1);
        match dirs[i].1 {
            Some(es) => {
                lemma_first_named_entry(name, es, 0);
                if first_named(name, es, 0) is None {
                    assert(!holds_named(name, es));
                    if let Some(p) = first_named_in_dirs(name, dirs, i) {
                        let (j, k) = choose|j: int, k: int|
                            #![trigger dirs[j].1->0[k]]
                            i + 1 <= j < dirs.len() && dirs[j].1 is Some && 0 <= k < dirs[j].1->0.len()
                                && name_equals_spec(name, dirs[j].1->0[k]) == Some(p) && (forall|m: int|
                                0 <= m < k ==> name_equals_spec(name, #[trigger] dirs[j].1->0[m]) is None)
                                && forall|l: int|
                                i + 1 <= l < j && #[trigger] dirs[l].1 is Some ==> !holds_named(name, dirs[l].1->0);
                        assert(dirs[j].1->0[k] == dirs[j].1->0[k]);
                    }
                } else {
                    let p = first_named(name, es, 0)->0;
                    let k = choose|k: int|
                        0 <= k < es.len() && #[trigger] name_equals_spec(name, es[k]) == Some(p) && forall|m: int|
                            0 <= m < k ==> name_equals_spec(name, #[trigger] es[m]) is None;
                    assert(dirs[i].1->0[k] == es[k]);
                }
            },
            None => {
                if let Some(p) = first_named_in_dirs(name, dirs, i) {
                    let (j, k) = choose|j: int, k: int|
                        #![trigger dirs[j].1->0[k]]
                        i + 1 <= j < dirs.len() && dirs[j].1 is Some && 0 <= k < dirs[j].1->0.len()
                            && name_equals_spec(name, dirs[j].1->0[k]) == Some(p) && (forall|m: int|
                            0 <= m < k ==> name_equals_spec(name, #[trigger] dirs[j].1->0[m]) is None)
                            && forall|l: int|
                            i + 1 <= l < j && #[trigger] dirs[l].1 is Some ==> !holds_named(name, dirs[l].1->0);
                    assert(dirs[j].1->0[k] == dirs[j].1->0[k]);
                }
            },
        }
    }
}

/// The first search path that holds the executable wins: what the search
/// finds is the path of an executable named `name` in a readable directory
/// of `dirs`, the first such entry of that directory, and no earlier
/// readable directory holds one; it finds nothing only when no readable
/// directory holds one.
pub proof fn lemma_first_search_path_wins(name: Seq<char>, dirs: Seq<SearchDirView>)
    ensures
        first_named_in_dirs(name, dirs, 0) matches Some(p) ==> exists|j: int, k: int|
            #![trigger dirs[j].1->0[k]]
            0 <= j < dirs.len() && dirs[j].1 is Some && 0 <= k < dirs[j].1->0.len() && name_equals_spec(
                name,
                dirs[j].1->0[k],
            ) == Some(p) && (forall|m: int| 0 <= m < k ==> name_equals_spec(name, #[trigger] dirs[j].1->0[m]) is None)
                && forall|l: int|
                0 <= l < j && #[trigger] dirs[l].1 is Some ==> !holds_named(name, dirs[l].1->0),
        first_named_in_dirs(name, dirs, 0) is None ==> forall|j: int|
            0 <= j < dirs.len() && #[trigger] dirs[j].1 is Some ==> !holds_named(name, dirs[j].1->0),
{
    lemma_first_in_dirs(name, dirs, 0);
}

/// The path of the first executable named `name` in the directories,
/// skipping those that could not be read.
pub fn search_executable_file_in_paths(name: &str, dirs: &Vec<SearchDir>) -> (res: Option<String>)
    ensures
        opt_str_view(res) == first_named_in_dirs(name@, dirs_view(dirs@), 0),
{
    let ghost dv = dirs_view(dirs@);
    let mut i: usize = 0;
    while i < dirs.len()
        invariant
            dv == dirs_view(dirs@),
            i <= dirs.len(),
            first_named_in_dirs(name@, dv, 0) == first_named_in_dirs(name@, dv, i as int),
        decreases dirs.len() - i,
    {
        assert(dv[i as int] == dirs@[i as int]@);
        if let Some(entries) = &dirs[i].entries {
            if let Some(r) = search_executable_file_in_dir(name, entries) {
                return Some(r);
            }
        }
        i = i + 1;
    }
    None
}

/// The paths of the entries (from index `i` on) that are executables
/// whose names start with `starts_with`, in their order.
pub open spec fn all_starting(starts_with: Seq<char>, es: Seq<EntryView>) -> Seq<Seq<char>>
    decreases es.len(),
{
    if es.len() == 0 {
        Seq::empty()
    } else {
        let rest = all_starting(starts_with, es.drop_last());
        match name_starts_with_spec(starts_with, es.last()) {
            Some(p) => rest.push(p),
            None => rest,
        }
    }
}

/// The paths of the executables of `entries` whose names start with
/// `starts_with`; `None` when there is none.
pub fn search_executable_files_in_dir(starts_with: &str, entries: &Vec<DirEntryInfo>) -> (res: Option<
    Vec<String>,
>)
    ensures
        match res {
            Some(v) => v@.len() > 0 && strings_view(v@) == all_starting(starts_with@, entries_view(entries@)),
            None => all_starting(starts_with@, entries_view(entries@)).len() == 0,
        },
{
    let ghost ev = entries_view(entries@);
    let mut files: Vec<String> = Vec::new();
    let mut i: usize = 0;
    while i < entries.len()
        invariant
            ev == entries_view(entries@),
            i <= entries.len(),
            strings_view(files@) == all_starting(starts_with@, ev.take(i as int)),
        decreases entries.len() - i,
    {
        assert(ev.take(i + 1).drop_last() =~= ev.take(i as int));
        assert(ev.take(i + 1).last() == entries@[i as int]@);
        if let Some(r) = name_starts_with_and_executable(starts_with, &entries[i]) {
            files.push(r);
            assert(strings_view(files@) =~= strings_view(files@.drop_last()).push(files@.last()@));
        }
        i = i + 1;
    }
    assert(ev.take(entries.len() as int) =~= ev);
    if files.len() == 0 {
        None
    } else {
        Some(files)
    }
}

/// The paths of the executables whose names start with `starts_with` in
/// the readable directories of `dirs`, in their order.
pub open spec fn all_starting_in_dirs(starts_with: Seq<char>, dirs: Seq<SearchDirView>) -> Seq<Seq<char>>
    decreases dirs.len(),
{
    if dirs.len() == 0 {
        Seq::empty()
    } else {
        all_starting_in_dirs(starts_with, dirs.drop_last()) + match dirs.last().1 {
            Some(es) => all_starting(starts_with, es),
            None => Seq::empty(),
        }
    }
}

/// The paths of the executables whose names start with `starts_with` in
/// the directories, skipping those that could not be read; `None` when
/// there is none.
pub fn search_executable_files_in_paths(starts_with: &str, dirs: &Vec<SearchDir>) -> (res: Option<
    Vec<String>,
>)
    ensures
        match res {
            Some(v) => v@.len() > 0 && strings_view(v@) == all_starting_in_dirs(starts_with@, dirs_view(dirs@)),
            None => all_starting_in_dirs(starts_with@, dirs_view(dirs@)).len() == 0,
        },
{
    let ghost dv = dirs_view(dirs@);
    let mut files: Vec<String> = Vec::new();
    let mut i: usize = 0;
    while i < dirs.len()
        invariant
            dv == dirs_view(dirs@),
            i <= dirs.len(),
            strings_view(files@) == all_starting_in_dirs(starts_with@, dv.take(i as int)),
        decreases dirs.len() - i,
    {
        assert(dv.take(i + 1).drop_last() =~= dv.take(i as int));
        assert(dv.take(i + 1).last() == dirs@[i as int]@);
        let ghost before = strings_view(files@);
        if let Some(entries) = &dirs[i].entries {
            if let Some(r) = search_executable_files_in_dir(starts_with, entries) {
                let mut r = r;
                let ghost added = strings_view(r@);
                files.append(&mut r);
                assert(strings_view(files@) =~= before + added);
            } else {
                assert(before + Seq::<Seq<char>>::empty() =~= before);
            }
        } else {
            assert(before + Seq::<Seq<char>>::empty() =~= before);
        }
        i = i + 1;
    }
    assert(dv.take(dirs.len() as int) =~= dv);
    if files.len() == 0 {
        None
    } else {
        Some(files)
    }
}

} // verus!
