//! Searching directories for files by kind and by a rule on their names.

pub mod structure;

use self::structure::{find_view, type_holds, FileType, FindFilesResult};
use crate::error::ShellError;
use crate::fs::{dirs_view, entries_view, entry_valid, listing_valid, DirEntryInfo, EntryView, SearchDir, SearchDirView};
use crate::rule::{rule_holds, Comprasion};
use crate::text::{has_prefix, has_suffix, strings_view};
use vstd::prelude::*;

verus! {

/// What the search makes of one entry.
pub enum Matched {
    /// The entry is skipped.
    Skip,
    /// The entry's metadata could not be read; holds its name.
    Failed(Seq<char>),
    /// The entry matches; holds its path (a directory's with a `/`).
    Path(Seq<char>),
}

/// Whether metadata `m` is of one of the `types`.
pub open spec fn any_type(types: Seq<FileType>, m: crate::fs::FileMeta) -> bool {
    exists|i: int| 0 <= i < types.len() && type_holds(#[trigger] types[i], m)
}

/// What the search makes of entry `e` under an optional name rule and
/// optional kinds: entries without a UTF-8 name, failing the rule or of
/// another kind are skipped; missing metadata fails; else the path.
pub open spec fn match_file_spec(e: EntryView, rule: Option<(int, Seq<char>)>, types: Option<Seq<FileType>>) -> Matched {
    match e.0 {
        None => Matched::Skip,
        Some(name) => if rule matches Some(r) && !rule_holds(r.0, r.1, name) {
            Matched::Skip
        } else {
            match e.2 {
                None => Matched::Failed(name),
                Some(m) => if types matches Some(ts) && !any_type(ts, m) {
                    Matched::Skip
                } else {
                    match e.1 {
                        Some(p) => Matched::Path(if m.is_dir {
                            p + "/"@
                        } else {
                            p
                        }),
                        None => Matched::Skip,
                    }
                },
            }
        },
    }
}

/// The view of an optional rule.
pub open spec fn rule_view(rule: Option<&Comprasion>) -> Option<(int, Seq<char>)> {
    match rule {
        Some(r) => Some(r@),
        None => None,
    }
}

/// The view of optional kinds.
pub open spec fn types_view(types: Option<&Vec<FileType>>) -> Option<Seq<FileType>> {
    match types {
        Some(t) => Some(t@),
        None => None,
    }
}

/// What the search makes of one entry: skipped (`None`), failed, or its path.
pub fn match_file(file: &DirEntryInfo, name_rule: Option<&Comprasion>, only_types: Option<&Vec<FileType>>) -> (res: FindFilesResult)
    ensures
        match match_file_spec(file@, rule_view(name_rule), types_view(only_types)) {
            Matched::Skip => res is Nothing,
            Matched::Failed(name) => res matches FindFilesResult::Failed(e) && e == ShellError::MetadataReading(file.name->0) && name == file.name->0@,
            Matched::Path(p) => res matches FindFilesResult::Found(v) && strings_view(v@) == seq![p],
        },
{
    let name = match &file.name {
        None => {
            return FindFilesResult::Nothing;
        },
        Some(n) => n,
    };
    if let Some(name_rule) = name_rule {
        if !name_rule.holds(name.as_str()) {
            return FindFilesResult::Nothing;
        }
    }
    let metadata = match file.metadata {
        None => {
            return FindFilesResult::Failed(ShellError::MetadataReading(name.clone()));
        },
        Some(m) => m,
    };
    if let Some(only_types) = only_types {
        let mut any = false;
        let mut i: usize = 0;
        while i < only_types.len()
            invariant
                i <= only_types.len(),
                any == exists|j: int| 0 <= j < i && type_holds(#[trigger] only_types@[j], metadata),
            decreases only_types.len() - i,
        {
            if only_types[i].holds(&metadata) {
                any = true;
            }
            i = i + 1;
        }
        if !any {
            return FindFilesResult::Nothing;
        }
    }
    match &file.path {
        Some(p) => {
            let mut path = p.clone();
            if metadata.is_dir {
                path.append("/");
            }
            let res = vec![path];
            assert(strings_view(res@) =~= seq![path@]);
            FindFilesResult::Found(res)
        },
        None => FindFilesResult::Nothing,
    }
}

/// The paths found among `es` after those `found` so far, or the message
/// of the first failure (ignored when `ignore_errors`).
pub open spec fn scan_entries(es: Seq<EntryView>, rule: Option<(int, Seq<char>)>, types: Option<Seq<FileType>>, ignore_errors: bool, found: Seq<Seq<char>>) -> Result<Seq<Seq<char>>, Seq<char>>
    decreases es.len(),
{
    if es.len() == 0 {
        Ok(found)
    } else {
        match scan_entries(es.drop_last(), rule, types, ignore_errors, found) {
            Err(m) => Err(m),
            Ok(f) => match match_file_spec(es.last(), rule, types) {
                Matched::Skip => Ok(f),
                Matched::Failed(name) => if ignore_errors {
                    Ok(f)
                } else {
                    Err(name + ": metadata reading error"@)
                },
                Matched::Path(p) => Ok(f.push(p)),
            },
        }
    }
}

/// The paths found in `dirs`, in their order, or the message of the first
/// failure (an unreadable directory, unreadable metadata), unless errors
/// are ignored.
pub open spec fn scan_dirs(dirs: Seq<SearchDirView>, rule: Option<(int, Seq<char>)>, types: Option<Seq<FileType>>, ignore_errors: bool) -> Result<Seq<Seq<char>>, Seq<char>>
    decreases dirs.len(),
{
    if dirs.len() == 0 {
        Ok(Seq::empty())
    } else {
        match scan_dirs(dirs.drop_last(), rule, types, ignore_errors) {
            Err(m) => Err(m),
            Ok(f) => match dirs.last().1 {
                None => if ignore_errors {
                    Ok(f)
                } else {
                    Err(dirs.last().0 + ": dir is invalid"@)
                },
                Some(es) => scan_entries(es, rule, types, ignore_errors, f),
            },
        }
    }
}

/// What a search of `dirs` gives: an error without directories, else the
/// first failure, nothing, or the paths found.
pub open spec fn find_files_spec(dirs: Seq<SearchDirView>, rule: Option<(int, Seq<char>)>, types: Option<Seq<FileType>>, ignore_errors: bool) -> Option<Result<Seq<Seq<char>>, Seq<char>>> {
    if dirs.len() == 0 {
        Some(Err("search paths is empty"@))
    } else {
        match scan_dirs(dirs, rule, types, ignore_errors) {
            Err(m) => Some(Err(m)),
            Ok(f) => if f.len() == 0 {
                None
            } else {
                Some(Ok(f))
            },
        }
    }
}

proof fn lemma_scan_entries_error_stays(es: Seq<EntryView>, rule: Option<(int, Seq<char>)>, types: Option<Seq<FileType>>, ignore_errors: bool, found: Seq<Seq<char>>, k: int, m: Seq<char>)
    requires
        0 <= k <= es.len(),
        scan_entries(es.take(k), rule, types, ignore_errors, found) == Err::<Seq<Seq<char>>, Seq<char>>(m),
    ensures
        scan_entries(es, rule, types, ignore_errors, found) == Err::<Seq<Seq<char>>, Seq<char>>(m),
    decreases es.len() - k,
{
    if k < es.len() {
        assert(es.take(k + 1).drop_last() =~= es.take(k));
        lemma_scan_entries_error_stays(es, rule, types, ignore_errors, found, k + 1, m);
    } else {
        assert(es.take(k) =~= es);
    }
}

proof fn lemma_scan_dirs_error_stays(dirs: Seq<SearchDirView>, rule: Option<(int, Seq<char>)>, types: Option<Seq<FileType>>, ignore_errors: bool, k: int, m: Seq<char>)
    requires
        0 <= k <= dirs.len(),
        scan_dirs(dirs.take(k), rule, types, ignore_errors) == Err::<Seq<Seq<char>>, Seq<char>>(m),
    ensures
        scan_dirs(dirs, rule, types, ignore_errors) == Err::<Seq<Seq<char>>, Seq<char>>(m),
    decreases dirs.len() - k,
{
    if k < dirs.len() {
        assert(dirs.take(k + 1).drop_last() =~= dirs.take(k));
        lemma_scan_dirs_error_stays(dirs, rule, types, ignore_errors, k + 1, m);
    } else {
        assert(dirs.take(k) =~= dirs);
    }
}

/// Searches `dirs` for the entries whose names pass `name_rule` and whose
/// kinds are among `only_types`; unreadable directories and metadata fail
/// the search unless `ignore_errors`.
pub fn find_files(search_paths: &Vec<SearchDir>, only_types: Option<&Vec<FileType>>, name_rule: Option<&Comprasion>, ignore_errors: bool) -> (res: FindFilesResult)
    ensures
        find_view(res) == find_files_spec(dirs_view(search_paths@), rule_view(name_rule), types_view(only_types), ignore_errors),
{
    let ghost rv = rule_view(name_rule);
    let ghost tv = types_view(only_types);
    let ghost dv = dirs_view(search_paths@);
    if search_paths.len() == 0 {
        let res = FindFilesResult::Failed(ShellError::SearchPathsEmpty);
        return res;
    }
    let mut found: Vec<String> = Vec::new();
    let mut i: usize = 0;
    assert(dv.take(0) =~= Seq::<SearchDirView>::empty());
    assert(strings_view(found@) =~= Seq::<Seq<char>>::empty());
    while i < search_paths.len()
        invariant
            dv == dirs_view(search_paths@),
            rv == rule_view(name_rule),
            tv == types_view(only_types),
            i <= search_paths.len(),
            scan_dirs(dv.take(i as int), rv, tv, ignore_errors) == Ok::<Seq<Seq<char>>, Seq<char>>(strings_view(found@)),
        decreases search_paths.len() - i,
    {
        let dir = &search_paths[i];
        assert(dv.take(i + 1).drop_last() =~= dv.take(i as int));
        assert(dv.take(i + 1).last() == dir@);
        match &dir.entries {
            None => {
                if !ignore_errors {
                    proof {
                        lemma_scan_dirs_error_stays(dv, rv, tv, ignore_errors, i + 1, dir.path@ + ": dir is invalid"@);
                    }
                    return FindFilesResult::Failed(ShellError::DirInvalid(dir.path.clone()));
                }
            },
            Some(entries) => {
                let ghost ev = entries_view(entries@);
                assert(dv[i as int] == dir@);
                let ghost start = strings_view(found@);
                let mut j: usize = 0;
                assert(ev.take(0) =~= Seq::<EntryView>::empty());
                while j < entries.len()
                    invariant
                        ev == entries_view(entries@),
                        dv == dirs_view(search_paths@),
                        i < search_paths.len(),
                        dv[i as int].1 == Some(ev),
                        dv.take(i + 1).drop_last() == dv.take(i as int),
                        dv.take(i + 1).last() == dv[i as int],
                        scan_dirs(dv.take(i as int), rv, tv, ignore_errors) == Ok::<Seq<Seq<char>>, Seq<char>>(start),
                        rv == rule_view(name_rule),
                        tv == types_view(only_types),
                        j <= entries.len(),
                        scan_entries(ev.take(j as int), rv, tv, ignore_errors, start) == Ok::<Seq<Seq<char>>, Seq<char>>(strings_view(found@)),
                    decreases entries.len() - j,
                {
                    let file = &entries[j];
                    assert(ev.take(j + 1).drop_last() =~= ev.take(j as int));
                    assert(ev.take(j + 1).last() == file@);
                    let ghost before = strings_view(found@);
                    let ghost mf = match_file_spec(file@, rv, tv);
                    assert(scan_entries(ev.take(j + 1), rv, tv, ignore_errors, start) == match mf {
                        Matched::Skip => Ok::<Seq<Seq<char>>, Seq<char>>(before),
                        Matched::Failed(name) => if ignore_errors {
                            Ok(before)
                        } else {
                            Err(name + ": metadata reading error"@)
                        },
                        Matched::Path(p) => Ok(before.push(p)),
                    });
                    match match_file(file, name_rule, only_types) {
                        FindFilesResult::Nothing => {
                            assert(mf is Skip);
                            assert(strings_view(found@) == before);
                            assert(scan_entries(ev.take(j + 1), rv, tv, ignore_errors, start) == Ok::<Seq<Seq<char>>, Seq<char>>(strings_view(found@)));
                        },
                        FindFilesResult::Failed(err) => {
                            assert(mf is Failed);
                            if !ignore_errors {
                                proof {
                                    lemma_scan_entries_error_stays(ev, rv, tv, ignore_errors, start, j + 1, err.message_spec());
                                    assert(scan_dirs(dv.take(i + 1), rv, tv, ignore_errors) == Err::<Seq<Seq<char>>, Seq<char>>(err.message_spec()));
                                    lemma_scan_dirs_error_stays(dv, rv, tv, ignore_errors, i + 1, err.message_spec());
                                }
                                return FindFilesResult::Failed(err);
                            }
                            assert(strings_view(found@) == before);
                            assert(scan_entries(ev.take(j + 1), rv, tv, ignore_errors, start) == Ok::<Seq<Seq<char>>, Seq<char>>(strings_view(found@)));
                        },
                        FindFilesResult::Found(paths) => {
                            assert(strings_view(paths@).len() == paths@.len());
                            assert(strings_view(paths@)[0] == paths@[0]@);
                            let path = paths[0].clone();
                            found.push(path);
                            assert(mf == Matched::Path(path@));
                            assert(strings_view(found@) =~= strings_view(found@.drop_last()).push(path@));
                            assert(strings_view(found@) == before.push(path@));
                            assert(scan_entries(ev.take(j + 1), rv, tv, ignore_errors, start) == Ok::<Seq<Seq<char>>, Seq<char>>(strings_view(found@)));
                        },
                    }
                    assert(scan_entries(ev.take(j + 1), rv, tv, ignore_errors, start) == Ok::<Seq<Seq<char>>, Seq<char>>(strings_view(found@)));
                    j = j + 1;
                }
                assert(ev.take(entries.len() as int) =~= ev);
            },
        }
        i = i + 1;
    }
    assert(dv.take(search_paths.len() as int) =~= dv);
    if found.len() == 0 {
        FindFilesResult::Nothing
    } else {
        FindFilesResult::Found(found)
    }
}

/// The executables named `name` in the directories.
pub fn find_bins_by_name(name: &str, paths: &Vec<SearchDir>) -> (res: FindFilesResult)
    ensures
        find_view(res) == find_files_spec(dirs_view(paths@), Some((0int, name@)), Some(seq![FileType::Executable]), true),
{
    let rule = Comprasion::Equal(name.to_owned());
    let types = vec![FileType::Executable];
    assert(types@ =~= seq![FileType::Executable]);
    find_files(paths, Some(&types), Some(&rule), true)
}

/// The executables whose names start with `starts_with` in the directories.
pub fn find_bins_starts_with(starts_with: &str, paths: &Vec<SearchDir>) -> (res: FindFilesResult)
    ensures
        find_view(res) == find_files_spec(dirs_view(paths@), Some((1int, starts_with@)), Some(seq![FileType::Executable]), true),
{
    let rule = Comprasion::AssertedStartsWith(starts_with.to_owned());
    let types = vec![FileType::Executable];
    assert(types@ =~= seq![FileType::Executable]);
    find_files(paths, Some(&types), Some(&rule), true)
}

/// The regular files whose names start with `starts_with` (any name when
/// it is empty) in the directories.
pub fn find_files_starts_with(starts_with: &str, paths: &Vec<SearchDir>) -> (res: FindFilesResult)
    ensures
        find_view(res) == find_files_spec(
            dirs_view(paths@),
            if starts_with@.len() == 0 { None } else { Some((1int, starts_with@)) },
            Some(seq![FileType::File]),
            true,
        ),
{
    let rule = Comprasion::AssertedStartsWith(starts_with.to_owned());
    let types = vec![FileType::File];
    assert(types@ =~= seq![FileType::File]);
    let rrule = if starts_with.unicode_len() == 0 {
        None
    } else {
        Some(&rule)
    };
    find_files(paths, Some(&types), rrule, true)
}

/// The entries of any kind whose names start with `starts_with` (any name
/// when it is empty) in the directories, directories with a `/`.
pub fn find_all_starts_with(starts_with: &str, paths: &Vec<SearchDir>) -> (res: FindFilesResult)
    ensures
        find_view(res) == find_files_spec(
            dirs_view(paths@),
            if starts_with@.len() == 0 { None } else { Some((1int, starts_with@)) },
            None,
            true,
        ),
{
    let rule = Comprasion::AssertedStartsWith(starts_with.to_owned());
    let rrule = if starts_with.unicode_len() == 0 {
        None
    } else {
        Some(&rule)
    };
    find_files(paths, None, rrule, true)
}

/// The path of a matched entry (empty for one that is not).
pub open spec fn matched_path(m: Matched) -> Seq<char> {
    match m {
        Matched::Path(x) => x,
        _ => Seq::empty(),
    }
}

/// `x` is what the search makes of a directory listed in `dirs`.
pub open spec fn found_directory(
    dirs: Seq<SearchDirView>,
    rule: Option<(int, Seq<char>)>,
    types: Option<Seq<FileType>>,
    x: Seq<char>,
) -> bool {
    exists|j: int, k: int|
        0 <= j < dirs.len() && dirs[j].1 is Some && 0 <= k < dirs[j].1->0.len() && match_file_spec(
            #[trigger] listed_entry(dirs, j, k),
            rule,
            types,
        ) == Matched::Path(x) && listed_entry(dirs, j, k).2->0.is_dir
}

/// The entry at index `k` of the listed directory at index `j`.
pub open spec fn listed_entry(dirs: Seq<SearchDirView>, j: int, k: int) -> EntryView {
    dirs[j].1->0[k]
}

/// `x` is what the search makes of some entry of a readable directory of
/// `dirs`.
pub open spec fn found_in_listing(
    dirs: Seq<SearchDirView>,
    rule: Option<(int, Seq<char>)>,
    types: Option<Seq<FileType>>,
    x: Seq<char>,
) -> bool {
    exists|j: int, k: int|
        0 <= j < dirs.len() && dirs[j].1 is Some && 0 <= k < dirs[j].1->0.len() && match_file_spec(
            #[trigger] listed_entry(dirs, j, k),
            rule,
            types,
        ) == Matched::Path(x)
}

proof fn lemma_scan_taken(
    dirs: Seq<SearchDirView>,
    j: int,
    es: Seq<EntryView>,
    n: int,
    rule: Option<(int, Seq<char>)>,
    types: Option<Seq<FileType>>,
    found: Seq<Seq<char>>,
)
    requires
        0 <= j < dirs.len(),
        dirs[j].1 == Some(es),
        0 <= n <= es.len(),
    ensures
        scan_entries(es.take(n), rule, types, true, found) is Ok,
        ({
            let f = scan_entries(es.take(n), rule, types, true, found)->Ok_0;
            &&& found.len() <= f.len()
            &&& f.subrange(0, found.len() as int) == found
            &&& forall|i: int| found.len() <= i < f.len() ==> found_in_listing(dirs, rule, types, #[trigger] f[i])
        }),
    decreases n,
{
    if n == 0 {
        assert(es.take(0) =~= Seq::<EntryView>::empty());
        assert(found.subrange(0, found.len() as int) =~= found);
    } else {
        lemma_scan_taken(dirs, j, es, n - 1, rule, types, found);
        assert(es.take(n).drop_last() =~= es.take(n - 1));
        assert(es.take(n).last() == es[n - 1]);
        let f0 = scan_entries(es.take(n - 1), rule, types, true, found)->Ok_0;
        let m = match_file_spec(es[n - 1], rule, types);
        assert(listed_entry(dirs, j, n - 1) == es[n - 1]);
        match m {
            Matched::Path(p) => {
                let f = f0.push(p);
                assert(f.subrange(0, found.len() as int) =~= f0.subrange(0, found.len() as int));
                assert forall|i: int| found.len() <= i < f.len() implies found_in_listing(
                    dirs,
                    rule,
                    types,
                    #[trigger] f[i],
                ) by {
                    if i < f0.len() {
                        assert(f[i] == f0[i]);
                    } else {
                        assert(f[i] == p);
                        assert(match_file_spec(listed_entry(dirs, j, n - 1), rule, types) == Matched::Path(p));
                    }
                }
            },
            _ => {},
        }
    }
}

proof fn lemma_scan_dirs_ignoring(
    dirs: Seq<SearchDirView>,
    n: int,
    rule: Option<(int, Seq<char>)>,
    types: Option<Seq<FileType>>,
)
    requires
        0 <= n <= dirs.len(),
    ensures
        scan_dirs(dirs.take(n), rule, types, true) is Ok,
        forall|i: int|
            0 <= i < scan_dirs(dirs.take(n), rule, types, true)->Ok_0.len() ==> found_in_listing(
                dirs,
                rule,
                types,
                #[trigger] scan_dirs(dirs.take(n), rule, types, true)->Ok_0[i],
            ),
    decreases n,
{
    if n > 0 {
        lemma_scan_dirs_ignoring(dirs, n - 1, rule, types);
        assert(dirs.take(n).drop_last() =~= dirs.take(n - 1));
        assert(dirs.take(n).last() == dirs[n - 1]);
        let f0 = scan_dirs(dirs.take(n - 1), rule, types, true)->Ok_0;
        match dirs[n - 1].1 {
            None => {},
            Some(es) => {
                lemma_scan_taken(dirs, n - 1, es, es.len() as int, rule, types, f0);
                assert(es.take(es.len() as int) =~= es);
                let f = scan_entries(es, rule, types, true, f0)->Ok_0;
                assert forall|i: int| 0 <= i < f.len() implies found_in_listing(
                    dirs,
                    rule,
                    types,
                    #[trigger] f[i],
                ) by {
                    if i < f0.len() {
                        assert(f[i] == f.subrange(0, f0.len() as int)[i]);
                        assert(f0[i] == f[i]);
                    }
                }
            },
        }
    } else {
        assert(dirs.take(0) =~= Seq::<SearchDirView>::empty());
    }
}

/// A search that ignores errors fails exactly when it is given no
/// directories; otherwise it finds nothing (never an empty list) or paths
/// of which each is what the search makes of an entry of a readable
/// directory: an entry with a name that passes the rule, metadata of one
/// of the kinds, and a path, with `/` after it for a directory. In a valid
/// listing a found path ends with `/` exactly when it is a directory's.
pub proof fn lemma_search_ignoring_errors(
    dirs: Seq<SearchDirView>,
    rule: Option<(int, Seq<char>)>,
    types: Option<Seq<FileType>>,
)
    ensures
        (find_files_spec(dirs, rule, types, true) matches Some(Err(_))) <==> dirs.len() == 0,
        find_files_spec(dirs, rule, types, true) matches Some(Ok(v)) ==> {
            &&& v.len() > 0
            &&& forall|i: int| 0 <= i < v.len() ==> found_in_listing(dirs, rule, types, #[trigger] v[i])
            &&& listing_valid(dirs) ==> forall|i: int|
                0 <= i < v.len() ==> (has_suffix(#[trigger] v[i], "/"@) <==> found_directory(dirs, rule, types, v[i]))
        },
        forall|j: int, k: int|
            0 <= j < dirs.len() && dirs[j].1 is Some && 0 <= k < dirs[j].1->0.len() && (match_file_spec(
                #[trigger] listed_entry(dirs, j, k),
                rule,
                types,
            ) is Path) ==> {
                let e = listed_entry(dirs, j, k);
                let x = matched_path(match_file_spec(e, rule, types));
                &&& e.0 matches Some(n) && (rule matches Some(r) ==> rule_holds(r.0, r.1, n))
                &&& e.2 matches Some(m) && (types matches Some(ts) ==> any_type(ts, m))
                &&& e.1 matches Some(p) && x == if e.2->0.is_dir {
                    p + "/"@
                } else {
                    p
                }
                &&& listing_valid(dirs) ==> (has_suffix(x, "/"@) <==> e.2->0.is_dir)
            },
{
    lemma_scan_dirs_ignoring(dirs, dirs.len() as int, rule, types);
    assert(dirs.take(dirs.len() as int) =~= dirs);
    reveal_strlit("/");
    if let Some(Ok(v)) = find_files_spec(dirs, rule, types, true) {
        if listing_valid(dirs) {
            assert forall|i: int| 0 <= i < v.len() implies (has_suffix(#[trigger] v[i], "/"@) <==> found_directory(dirs, rule, types, v[i])) by {
                let x = v[i];
                assert(found_in_listing(dirs, rule, types, x));
                let (j, k) = choose|j: int, k: int|
                    0 <= j < dirs.len() && dirs[j].1 is Some && 0 <= k < dirs[j].1->0.len() && match_file_spec(
                        #[trigger] listed_entry(dirs, j, k),
                        rule,
                        types,
                    ) == Matched::Path(x);
                let e = listed_entry(dirs, j, k);
                assert(entry_valid(dirs[j].1->0[k]));
                let p = e.1->0;
                if e.2->0.is_dir {
                    assert((p + "/"@).subrange((p + "/"@).len() - 1, (p + "/"@).len() as int) =~= "/"@);
                    assert(found_directory(dirs, rule, types, x));
                } else {
                    assert(!has_suffix(x, "/"@));
                    if found_directory(dirs, rule, types, x) {
                        let (j2, k2) = choose|j2: int, k2: int|
                            0 <= j2 < dirs.len() && dirs[j2].1 is Some && 0 <= k2 < dirs[j2].1->0.len() && match_file_spec(
                                #[trigger] listed_entry(dirs, j2, k2),
                                rule,
                                types,
                            ) == Matched::Path(x) && listed_entry(dirs, j2, k2).2->0.is_dir;
                        let p2 = listed_entry(dirs, j2, k2).1->0;
                        assert((p2 + "/"@).subrange((p2 + "/"@).len() - 1, (p2 + "/"@).len() as int) =~= "/"@);
                    }
                }
            }
        }
    }
    assert forall|j: int, k: int|
        0 <= j < dirs.len() && dirs[j].1 is Some && 0 <= k < dirs[j].1->0.len() && (match_file_spec(
            #[trigger] listed_entry(dirs, j, k),
            rule,
            types,
        ) is Path) implies {
            let e = listed_entry(dirs, j, k);
            let x = matched_path(match_file_spec(e, rule, types));
            &&& e.0 matches Some(n) && (rule matches Some(r) ==> rule_holds(r.0, r.1, n))
            &&& e.2 matches Some(m) && (types matches Some(ts) ==> any_type(ts, m))
            &&& e.1 matches Some(p) && x == if e.2->0.is_dir {
                p + "/"@
            } else {
                p
            }
            &&& listing_valid(dirs) ==> (has_suffix(x, "/"@) <==> e.2->0.is_dir)
        } by {
        reveal_strlit("/");
        let e = listed_entry(dirs, j, k);
        let p = e.1->0;
        if e.2->0.is_dir {
            assert((p + "/"@).subrange((p + "/"@).len() - 1, (p + "/"@).len() as int) =~= "/"@);
        }
        if listing_valid(dirs) {
            assert(entry_valid(dirs[j].1->0[k]));
        }
    }
}

/// `x` is the path, without a trailing `/`, of a regular file listed
/// directly in one of the directories, whose name starts with `starts_with`.
pub open spec fn listed_regular_file(dirs: Seq<SearchDirView>, starts_with: Seq<char>, x: Seq<char>) -> bool {
    exists|j: int, k: int|
        0 <= j < dirs.len() && dirs[j].1 is Some && 0 <= k < dirs[j].1->0.len() && {
            let e = #[trigger] listed_entry(dirs, j, k);
            &&& e.0 matches Some(n) && has_prefix(n, starts_with)
            &&& e.2 matches Some(m) && m.is_file && !m.is_dir
            &&& e.1 == Some(x)
            &&& !has_suffix(x, "/"@)
        }
}

/// The prefix search for regular files fails only without directories,
/// and what it finds is a non-empty list of which each path is, in a valid
/// listing, the path (without a trailing `/`) of a regular file listed
/// directly in one of the directories, whose name starts with
/// `starts_with` (any name when it is empty).
pub proof fn lemma_file_search_finds_named_files(dirs: Seq<SearchDirView>, starts_with: Seq<char>)
    requires
        listing_valid(dirs),
    ensures
        ({
            let r = find_files_spec(
                dirs,
                if starts_with.len() == 0 { None } else { Some((1int, starts_with)) },
                Some(seq![FileType::File]),
                true,
            );
            &&& (r matches Some(Err(_))) <==> dirs.len() == 0
            &&& r matches Some(Ok(v)) ==> {
                &&& v.len() > 0
                &&& forall|i: int|
                    0 <= i < v.len() ==> listed_regular_file(dirs, starts_with, #[trigger] v[i])
            }
        }),
{
    let rule = if starts_with.len() == 0 { None } else { Some((1int, starts_with)) };
    let types = Some(seq![FileType::File]);
    lemma_search_ignoring_errors(dirs, rule, types);
    let r = find_files_spec(dirs, rule, types, true);
    if let Some(Ok(v)) = r {
        assert forall|i: int| 0 <= i < v.len() implies listed_regular_file(dirs, starts_with, #[trigger] v[i]) by {
            assert(found_in_listing(dirs, rule, types, v[i]));
            let (j, k) = choose|j: int, k: int|
                0 <= j < dirs.len() && dirs[j].1 is Some && 0 <= k < dirs[j].1->0.len() && match_file_spec(
                    #[trigger] listed_entry(dirs, j, k),
                    rule,
                    types,
                ) == Matched::Path(v[i]);
            let e = listed_entry(dirs, j, k);
            assert(entry_valid(dirs[j].1->0[k]));
            let m = e.2->0;
            assert(any_type(seq![FileType::File], m));
            let t = choose|t: int| 0 <= t < 1 && type_holds(#[trigger] seq![FileType::File][t], m);
            assert(t == 0);
            assert(m.is_file);
            if starts_with.len() == 0 {
                assert(has_prefix(e.0->0, starts_with)) by {
                    assert(e.0->0.subrange(0, 0) =~= starts_with);
                }
            }
        }
    }
}

proof fn lemma_scan_entries_keeps(
    es: Seq<EntryView>,
    rule: Option<(int, Seq<char>)>,
    types: Option<Seq<FileType>>,
    found: Seq<Seq<char>>,
)
    ensures
        scan_entries(es, rule, types, true, found) is Ok,
        forall|x: Seq<char>| found.contains(x) ==> #[trigger] scan_entries(es, rule, types, true, found)->Ok_0.contains(x),
        forall|k: int|
            0 <= k < es.len() && (#[trigger] match_file_spec(es[k], rule, types)) is Path ==> scan_entries(
                es,
                rule,
                types,
                true,
                found,
            )->Ok_0.contains(matched_path(match_file_spec(es[k], rule, types))),
    decreases es.len(),
{
    if es.len() > 0 {
        let init = es.drop_last();
        lemma_scan_entries_keeps(init, rule, types, found);
        let f0 = scan_entries(init, rule, types, true, found)->Ok_0;
        let f = scan_entries(es, rule, types, true, found)->Ok_0;
        assert forall|x: Seq<char>| f0.contains(x) implies f.contains(x) by {
            let i = choose|i: int| 0 <= i < f0.len() && f0[i] == x;
            if let Matched::Path(p) = match_file_spec(es.last(), rule, types) {
                assert(f == f0.push(p));
                assert(f[i] == x);
            }
        }
        assert forall|k: int|
            0 <= k < es.len() && (#[trigger] match_file_spec(es[k], rule, types)) is Path implies f.contains(
            matched_path(match_file_spec(es[k], rule, types)),
        ) by {
            if k < es.len() - 1 {
                assert(init[k] == es[k]);
                assert(f0.contains(matched_path(match_file_spec(init[k], rule, types))));
            } else {
                assert(es[k] == es.last());
                let p = matched_path(match_file_spec(es[k], rule, types));
                assert(f == f0.push(p));
                assert(f[f0.len() as int] == p);
            }
        }
    }
}

proof fn lemma_scan_dirs_keeps(
    dirs: Seq<SearchDirView>,
    rule: Option<(int, Seq<char>)>,
    types: Option<Seq<FileType>>,
)
    ensures
        scan_dirs(dirs, rule, types, true) is Ok,
        forall|j: int, k: int|
            0 <= j < dirs.len() && dirs[j].1 is Some && 0 <= k < dirs[j].1->0.len() && (match_file_spec(
                #[trigger] listed_entry(dirs, j, k),
                rule,
                types,
            ) is Path) ==> scan_dirs(dirs, rule, types, true)->Ok_0.contains(
                matched_path(match_file_spec(listed_entry(dirs, j, k), rule, types)),
            ),
    decreases dirs.len(),
{
    if dirs.len() > 0 {
        let init = dirs.drop_last();
        lemma_scan_dirs_keeps(init, rule, types);
        let f0 = scan_dirs(init, rule, types, true)->Ok_0;
        let f = scan_dirs(dirs, rule, types, true)->Ok_0;
        if let Some(es) = dirs.last().1 {
            lemma_scan_entries_keeps(es, rule, types, f0);
        }
        assert forall|j: int, k: int|
            0 <= j < dirs.len() && dirs[j].1 is Some && 0 <= k < dirs[j].1->0.len() && (match_file_spec(
                #[trigger] listed_entry(dirs, j, k),
                rule,
                types,
            ) is Path) implies f.contains(matched_path(match_file_spec(listed_entry(dirs, j, k), rule, types))) by {
            let x = matched_path(match_file_spec(listed_entry(dirs, j, k), rule, types));
            if j < dirs.len() - 1 {
                assert(init[j] == dirs[j]);
                assert(listed_entry(init, j, k) == listed_entry(dirs, j, k));
                assert(f0.contains(x));
            } else {
                assert(dirs[j] == dirs.last());
                let es = dirs.last().1->0;
                assert(es[k] == listed_entry(dirs, j, k));
            }
        }
    }
}

/// A search that ignores errors finds every match: the path (with `/`
/// after a directory's) of each entry of a readable directory that has a
/// name passing the rule, metadata of one of the kinds, and a path.
pub proof fn lemma_search_finds_every_match(
    dirs: Seq<SearchDirView>,
    rule: Option<(int, Seq<char>)>,
    types: Option<Seq<FileType>>,
    j: int,
    k: int,
)
    requires
        0 <= j < dirs.len(),
        dirs[j].1 is Some,
        0 <= k < dirs[j].1->0.len(),
        listed_entry(dirs, j, k).0 is Some,
        listed_entry(dirs, j, k).1 is Some,
        listed_entry(dirs, j, k).2 is Some,
        rule matches Some(r) ==> rule_holds(r.0, r.1, listed_entry(dirs, j, k).0->0),
        types matches Some(ts) ==> any_type(ts, listed_entry(dirs, j, k).2->0),
    ensures
        find_files_spec(dirs, rule, types, true) is Some,
        find_files_spec(dirs, rule, types, true)->0 is Ok,
        find_files_spec(dirs, rule, types, true)->0->Ok_0.contains(
            if listed_entry(dirs, j, k).2->0.is_dir {
                listed_entry(dirs, j, k).1->0 + "/"@
            } else {
                listed_entry(dirs, j, k).1->0
            },
        ),
{
    lemma_scan_dirs_keeps(dirs, rule, types);
    let e = listed_entry(dirs, j, k);
    assert(match_file_spec(e, rule, types) is Path);
    let f = scan_dirs(dirs, rule, types, true)->Ok_0;
    assert(f.contains(matched_path(match_file_spec(e, rule, types))));
    assert(f.len() > 0);
}

} // verus!
