//! Completion of the command line.
//!
//! The first word of the input completes to a builtin or to an executable
//! found in the search paths; any later word completes to a file name.
//! Looking at the file system is the caller's part: `completion_lookup`
//! says what to look for, and the functions here take what was found.

pub mod structure;

use self::structure::{as_strs, Completion, CompletionView, FileFindData};
use crate::text::{
    contains_char, ends_with, has_prefix, has_suffix, join, join_seq, last_piece,
    lemma_join_split, lemma_remove_prefix, lemma_split_nonempty, lemma_split_pieces_without, lemma_split_with, opt_strings_view, remove_first, remove_first_seq, sort_dedup, split_char, split_seq,
    lemma_sorted_distinct_unique, sorted_distinct_of, strictly_sorted, starts_with, str_eq, strings_view, strs_view, trim, trim_end_char,
    trim_end_matches, trim_seq,
};
use crate::fs::find::structure::{find_view, FileType};
use crate::fs::find::{
    find_all_starts_with, find_bins_starts_with, find_files_spec, lemma_search_finds_every_match, listed_entry,
};
use crate::fs::{dirs_view, SearchDir, SearchDirView};
use vstd::prelude::*;

verus! {

/// The length of `s` in UTF-8 bytes, which is what `str::len` counts.
pub open spec fn byte_len(s: Seq<char>) -> usize {
    vstd::utf8::encode_utf8(s).len() as usize
}

/// The index of the first of the shortest strings of a non-empty `v`,
/// which is the one that `min_by_key(len)` picks.
pub open spec fn shortest_index(v: Seq<Seq<char>>) -> int
    decreases v.len(),
{
    if v.len() <= 1 {
        0
    } else {
        let k = shortest_index(v.drop_last());
        if byte_len(v.last()) < byte_len(v[k]) {
            v.len() - 1
        } else {
            k
        }
    }
}

/// The shortest string of a non-empty sequence is one of its strings.
pub proof fn lemma_shortest_in_range(v: Seq<Seq<char>>)
    requires
        v.len() > 0,
    ensures
        0 <= shortest_index(v) < v.len(),
    decreases v.len(),
{
    if v.len() > 1 {
        lemma_shortest_in_range(v.drop_last());
    }
}

/// The index of the first of the shortest strings of a non-empty `v`, as
/// `min_by_key(len)` finds it.
pub fn shortest(v: &Vec<&str>) -> (res: usize)
    requires
        v.len() > 0,
    ensures
        res == shortest_index(strs_view(v@)),
        res < v.len(),
{
    let ghost sv = strs_view(v@);
    let mut best: usize = 0;
    let mut best_len = v[0].len();
    let mut i: usize = 1;
    assert(sv.take(1).len() == 1);
    while i < v.len()
        invariant
            sv == strs_view(v@),
            1 <= i <= v.len(),
            best < i,
            best == shortest_index(sv.take(i as int)),
            best_len == byte_len(sv[best as int]),
        decreases v.len() - i,
    {
        assert(sv.take(i + 1).drop_last() =~= sv.take(i as int));
        assert(sv.take(i + 1).last() == sv[i as int]);
        assert(sv.take(i + 1)[best as int] == sv[best as int]);
        let l = v[i].len();
        if l < best_len {
            best = i;
            best_len = l;
        }
        i = i + 1;
    }
    assert(sv.take(v.len() as int) =~= sv);
    best
}

/// The strings of `vs` that extend `prefix`: they start with it and are
/// longer than it.
pub open spec fn extending(vs: Seq<Seq<char>>, prefix: Seq<char>) -> Seq<Seq<char>>
    decreases vs.len(),
{
    if vs.len() == 0 {
        vs
    } else {
        let rest = extending(vs.drop_last(), prefix);
        if has_prefix(vs.last(), prefix) && vs.last() != prefix {
            rest.push(vs.last())
        } else {
            rest
        }
    }
}

/// The strings of `vs` other than `x`, in their order.
pub open spec fn excluding(vs: Seq<Seq<char>>, x: Seq<char>) -> Seq<Seq<char>>
    decreases vs.len(),
{
    if vs.len() == 0 {
        vs
    } else {
        let rest = excluding(vs.drop_last(), x);
        if vs.last() != x {
            rest.push(vs.last())
        } else {
            rest
        }
    }
}

/// Every string of `vs` starts with `p`.
pub open spec fn all_have_prefix(vs: Seq<Seq<char>>, p: Seq<char>) -> bool {
    forall|i: int| 0 <= i < vs.len() ==> has_prefix(#[trigger] vs[i], p)
}

/// What `get_prefixed_variant` gives: the shortest variant (apart from
/// `current`) when every other one extends it.
pub open spec fn get_prefixed_variant_spec(current: Seq<char>, vs: Seq<Seq<char>>) -> Option<
    Seq<char>,
> {
    if vs.len() == 0 {
        None
    } else if vs.len() == 1 {
        Some(vs[0])
    } else {
        let cand = if current.len() == 0 {
            vs
        } else {
            excluding(vs, current)
        };
        let short = cand[shortest_index(cand)];
        if all_have_prefix(cand, short) {
            Some(short)
        } else {
            None
        }
    }
}

proof fn lemma_excluding_members(vs: Seq<Seq<char>>, x: Seq<char>)
    ensures
        forall|y: Seq<char>| #[trigger] excluding(vs, x).contains(y) <==> vs.contains(y) && y != x,
    decreases vs.len(),
{
    if vs.len() > 0 {
        lemma_excluding_members(vs.drop_last(), x);
        let rest = excluding(vs.drop_last(), x);
        assert forall|y: Seq<char>| #[trigger] excluding(vs, x).contains(y) <==> vs.contains(y) && y != x by {
            if vs.contains(y) && y != x {
                let k = choose|k: int| 0 <= k < vs.len() && vs[k] == y;
                if k < vs.len() - 1 {
                    assert(vs.drop_last()[k] == y);
                    assert(rest.contains(y));
                    if vs.last() != x {
                        let m = choose|m: int| 0 <= m < rest.len() && rest[m] == y;
                        assert(rest.push(vs.last())[m] == y);
                    }
                } else {
                    assert(excluding(vs, x) == rest.push(vs.last()));
                    assert(rest.push(vs.last())[rest.len() as int] == y);
                }
            }
            if excluding(vs, x).contains(y) {
                let m = choose|m: int| 0 <= m < excluding(vs, x).len() && excluding(vs, x)[m] == y;
                if m < rest.len() {
                    assert(rest.contains(y));
                    let k = choose|k: int| 0 <= k < vs.drop_last().len() && vs.drop_last()[k] == y;
                    assert(vs[k] == y);
                } else {
                    assert(vs[vs.len() - 1] == y);
                }
            }
        }
    } else {
        assert forall|y: Seq<char>| #[trigger] excluding(vs, x).contains(y) <==> vs.contains(y) && y != x by {
        }
    }
}

/// The variant that `get_prefixed_variant` picks is one of the variants,
/// and every variant other than `current` starts with it.
pub proof fn lemma_prefixed_variant_is_shared(current: Seq<char>, vs: Seq<Seq<char>>)
    requires
        current.len() > 0 && vs.len() >= 2 ==> excluding(vs, current).len() > 0,
    ensures
        get_prefixed_variant_spec(current, vs) matches Some(s) ==> {
            &&& vs.contains(s)
            &&& forall|i: int| 0 <= i < vs.len() && vs[i] != current ==> has_prefix(#[trigger] vs[i], s)
        },
{
    if vs.len() == 1 {
        assert(vs.contains(vs[0]));
        assert(vs[0].subrange(0, vs[0].len() as int) =~= vs[0]);
    } else if vs.len() >= 2 {
        let cand = if current.len() == 0 { vs } else { excluding(vs, current) };
        lemma_shortest_in_range(cand);
        lemma_excluding_members(vs, current);
        let short = cand[shortest_index(cand)];
        assert(cand.contains(short));
        if get_prefixed_variant_spec(current, vs) is Some {
            assert forall|i: int| 0 <= i < vs.len() && vs[i] != current implies has_prefix(#[trigger] vs[i], short) by {
                assert(vs.contains(vs[i]));
                assert(cand.contains(vs[i]));
                let k = choose|k: int| 0 <= k < cand.len() && cand[k] == vs[i];
                assert(has_prefix(cand[k], short));
            }
        }
    }
}

/// The strings of `variants` other than `current`, as owned strings.
fn exclude<'a>(variants: &Vec<&'a str>, current: &str) -> (res: Vec<&'a str>)
    ensures
        strs_view(res@) == excluding(strs_view(variants@), current@),
{
    let ghost sv = strs_view(variants@);
    let mut res: Vec<&str> = Vec::new();
    let mut i: usize = 0;
    while i < variants.len()
        invariant
            sv == strs_view(variants@),
            i <= variants.len(),
            strs_view(res@) == excluding(sv.take(i as int), current@),
        decreases variants.len() - i,
    {
        assert(sv.take(i + 1).drop_last() =~= sv.take(i as int));
        assert(sv.take(i + 1).last() == sv[i as int]);
        if !str_eq(variants[i], current) {
            res.push(variants[i]);
            assert(strs_view(res@) =~= strs_view(res@.drop_last()).push(sv[i as int]));
        }
        i = i + 1;
    }
    assert(sv.take(variants.len() as int) =~= sv);
    res
}

/// Whether every string of `vs` starts with `p`.
fn all_start_with(vs: &Vec<&str>, p: &str) -> (res: bool)
    ensures
        res == all_have_prefix(strs_view(vs@), p@),
{
    let mut i: usize = 0;
    while i < vs.len()
        invariant
            i <= vs.len(),
            forall|j: int| 0 <= j < i ==> has_prefix(#[trigger] strs_view(vs@)[j], p@),
        decreases vs.len() - i,
    {
        if !starts_with(vs[i], p) {
            assert(strs_view(vs@)[i as int] == vs@[i as int]@);
            return false;
        }
        i = i + 1;
    }
    true
}

/// The variant that every other variant extends, if there is one: with
/// an empty `current` the shortest variant; otherwise the shortest of the
/// variants other than `current`. A single variant is returned as it is.
pub fn get_prefixed_variant(current: &str, variants: Vec<&str>) -> (res: Option<String>)
    requires
        current@.len() > 0 && variants.len() >= 2 ==> excluding(strs_view(variants@), current@).len()
            > 0,
    ensures
        match res {
            Some(s) => get_prefixed_variant_spec(current@, strs_view(variants@)) == Some(s@),
            None => get_prefixed_variant_spec(current@, strs_view(variants@)) is None,
        },
{
    if variants.len() == 0 {
        return None;
    }
    if variants.len() == 1 {
        return Some(variants[0].to_owned());
    }
    let cand = if current.unicode_len() == 0 {
        variants
    } else {
        exclude(&variants, current)
    };
    let k = shortest(&cand);
    let short = cand[k];
    if !all_start_with(&cand, short) {
        return None;
    }
    Some(short.to_owned())
}

/// The variants of `vs` that extend `prefix`, as owned strings.
fn extend_matches(vs: &Vec<&str>, prefix: &str) -> (res: Vec<String>)
    ensures
        strings_view(res@) == extending(strs_view(vs@), prefix@),
{
    let ghost sv = strs_view(vs@);
    let mut res: Vec<String> = Vec::new();
    let mut i: usize = 0;
    while i < vs.len()
        invariant
            sv == strs_view(vs@),
            i <= vs.len(),
            strings_view(res@) == extending(sv.take(i as int), prefix@),
        decreases vs.len() - i,
    {
        assert(sv.take(i + 1).drop_last() =~= sv.take(i as int));
        assert(sv.take(i + 1).last() == sv[i as int]);
        if starts_with(vs[i], prefix) && !str_eq(vs[i], prefix) {
            res.push(vs[i].to_owned());
            assert(strings_view(res@) =~= strings_view(res@.drop_last()).push(sv[i as int]));
        }
        i = i + 1;
    }
    assert(sv.take(vs.len() as int) =~= sv);
    res
}

/// What `complete_to_variants` gives for the word `starts_with` and the
/// candidate words `vs`.
pub open spec fn complete_to_variants_spec(sw: Seq<char>, vs: Seq<Seq<char>>) -> Option<
    CompletionView,
> {
    if vs.len() == 0 {
        None
    } else if sw.len() == 0 {
        Some((None, Some(vs)))
    } else {
        let found = extending(vs, sw);
        if found.len() == 0 {
            None
        } else if found.len() == 1 {
            Some((Some(remove_first_seq(found[0], sw) + " "@), None))
        } else {
            match get_prefixed_variant_spec(sw, found) {
                Some(p) => Some((Some(remove_first_seq(p, sw)), None)),
                None => Some((None, Some(found))),
            }
        }
    }
}

/// The view of an optional completion.
pub open spec fn completion_view(c: Option<Completion>) -> Option<CompletionView> {
    match c {
        Some(c) => Some(c@),
        None => None,
    }
}

/// The candidates that extend `p` are exactly the candidates that start
/// with `p` and differ from it.
pub proof fn lemma_extending_members(vs: Seq<Seq<char>>, p: Seq<char>)
    ensures
        forall|x: Seq<char>| #[trigger] extending(vs, p).contains(x) <==> vs.contains(x) && has_prefix(x, p) && x != p,
    decreases vs.len(),
{
    if vs.len() > 0 {
        lemma_extending_members(vs.drop_last(), p);
        let rest = extending(vs.drop_last(), p);
        assert forall|x: Seq<char>| #[trigger] extending(vs, p).contains(x) <==> vs.contains(x) && has_prefix(x, p) && x != p by {
            if vs.contains(x) && has_prefix(x, p) && x != p {
                let k = choose|k: int| 0 <= k < vs.len() && vs[k] == x;
                if k < vs.len() - 1 {
                    assert(vs.drop_last()[k] == x);
                    assert(rest.contains(x));
                    let m = choose|m: int| 0 <= m < rest.len() && rest[m] == x;
                    if has_prefix(vs.last(), p) && vs.last() != p {
                        assert(rest.push(vs.last())[m] == x);
                    }
                } else {
                    assert(rest.push(vs.last())[rest.len() as int] == x);
                }
            }
            if extending(vs, p).contains(x) {
                let m = choose|m: int| 0 <= m < extending(vs, p).len() && extending(vs, p)[m] == x;
                if m < rest.len() {
                    assert(rest.contains(x));
                    let k = choose|k: int| 0 <= k < vs.drop_last().len() && vs.drop_last()[k] == x;
                    assert(vs[k] == x);
                } else {
                    assert(vs[vs.len() - 1] == x);
                }
            }
        }
    } else {
        assert forall|x: Seq<char>| #[trigger] extending(vs, p).contains(x) <==> vs.contains(x) && has_prefix(x, p) && x != p by {
        }
    }
}

proof fn lemma_extending_excludes(vs: Seq<Seq<char>>, p: Seq<char>)
    ensures
        excluding(extending(vs, p), p) == extending(vs, p),
        forall|i: int|
            0 <= i < extending(vs, p).len() ==> #[trigger] extending(vs, p)[i] != p && has_prefix(
                extending(vs, p)[i],
                p,
            ),
    decreases vs.len(),
{
    if vs.len() > 0 {
        lemma_extending_excludes(vs.drop_last(), p);
        let rest = extending(vs.drop_last(), p);
        assert(rest.push(vs.last()).drop_last() =~= rest);
    }
}

/// Completes the word `starts_with` against `variants`: nothing when no
/// variant extends it, the rest of the only extending variant (with a
/// space after it), the rest up to the variant that all others extend, or
/// else the extending variants to choose from. An empty word offers all
/// variants.
pub fn complete_to_variants(starts_with: &str, variants: &Vec<&str>) -> (res: Option<Completion>)
    ensures
        completion_view(res) == complete_to_variants_spec(starts_with@, strs_view(variants@)),
{
    if variants.len() == 0 {
        return None;
    }
    if starts_with.unicode_len() == 0 {
        return Some(Completion::from_variants(to_strings(variants)));
    }
    let found = extend_matches(variants, starts_with);
    let len = found.len();
    if len == 0 {
        return None;
    }
    let found_strs = as_strs(&found);
    let short = found_strs[shortest(&found_strs)];
    if len == 1 {
        let mut selected = remove_first(short, starts_with);
        selected.append(" ");
        return Some(Completion::from_selected(selected));
    }
    proof {
        lemma_extending_excludes(strs_view(variants@), starts_with@);
    }
    match get_prefixed_variant(starts_with, found_strs) {
        Some(prefixed) => {
            let selected = remove_first(prefixed.as_str(), starts_with);
            Some(Completion::from_selected(selected))
        },
        None => Some(Completion::from_variants(found)),
    }
}


/// The text that a completion selects (empty when it selects none).
pub open spec fn selected_text(c: Option<CompletionView>) -> Seq<char> {
    match c {
        Some(v) => match v.0 {
            Some(t) => t,
            None => Seq::empty(),
        },
        None => Seq::empty(),
    }
}

/// What completing a non-empty word selects is never empty, and every
/// candidate that extends the word (with a space after it) starts with the
/// word followed by the selection: completion only types what all
/// remaining candidates share.
pub proof fn lemma_selection_extends_candidates(sw: Seq<char>, vs: Seq<Seq<char>>)
    requires
        sw.len() > 0,
        complete_to_variants_spec(sw, vs) matches Some(c) && c.0 is Some,
    ensures
        ({
            let sel = selected_text(complete_to_variants_spec(sw, vs));
            &&& sel.len() > 0
            &&& forall|i: int|
                0 <= i < extending(vs, sw).len() ==> has_prefix(
                    #[trigger] extending(vs, sw)[i] + " "@,
                    sw + sel,
                )
        }),
{
    reveal_strlit(" ");
    let found = extending(vs, sw);
    lemma_extending_excludes(vs, sw);
    let sel = selected_text(complete_to_variants_spec(sw, vs));
    if found.len() == 1 {
        let v = found[0];
        assert(has_prefix(v, sw));
        lemma_remove_prefix(v, sw);
        assert(sw + sel =~= v + " "@);
        assert forall|i: int| 0 <= i < found.len() implies has_prefix(
            #[trigger] found[i] + " "@,
            sw + sel,
        ) by {
            assert(i == 0);
            assert((v + " "@).subrange(0, (v + " "@).len() as int) =~= v + " "@);
        }
    } else {
        let cand = excluding(found, sw);
        assert(cand == found);
        lemma_shortest_in_range(cand);
        let k = shortest_index(cand);
        let p = cand[k];
        assert(get_prefixed_variant_spec(sw, found) == Some(p));
        assert(has_prefix(p, sw) && p != sw);
        assert(p.len() > sw.len()) by {
            if p.len() == sw.len() {
                assert(p.subrange(0, p.len() as int) =~= p);
            }
        }
        lemma_remove_prefix(p, sw);
        assert(sw + sel =~= p);
        assert forall|i: int| 0 <= i < found.len() implies has_prefix(
            #[trigger] found[i] + " "@,
            sw + sel,
        ) by {
            assert(has_prefix(cand[i], p));
            assert((found[i] + " "@).subrange(0, p.len() as int) =~= found[i].subrange(
                0,
                p.len() as int,
            ));
        }
    }
}

/// Owned copies of the strings of `v`.
pub fn to_strings(v: &Vec<&str>) -> (res: Vec<String>)
    ensures
        strings_view(res@) == strs_view(v@),
{
    let mut all: Vec<String> = Vec::new();
    let mut i: usize = 0;
    while i < v.len()
        invariant
            i <= v.len(),
            strings_view(all@) == strs_view(v@).take(i as int),
        decreases v.len() - i,
    {
        let owned = v[i].to_owned();
        assert(owned@ == strs_view(v@)[i as int]);
        all.push(owned);
        assert(strings_view(all@) =~= strings_view(all@.drop_last()).push(owned@));
        assert(strs_view(v@).take(i + 1) =~= strs_view(v@).take(i as int).push(owned@));
        i = i + 1;
    }
    assert(strs_view(v@).take(v.len() as int) =~= strs_view(v@));
    all
}

/// A selected completion with a space after it, unless it names a
/// directory (ends with `/`).
pub open spec fn whitespace_if_file_spec(s: Seq<char>) -> Seq<char> {
    if has_suffix(s, "/"@) {
        s
    } else {
        s + " "@
    }
}

/// Adds a space after a selected file name, so the next word can follow;
/// a directory (ending with `/`) is left open.
pub fn whitespace_if_file(selected: String) -> (res: String)
    ensures
        res@ == whitespace_if_file_spec(selected@),
{
    if ends_with(selected.as_str(), "/") {
        selected
    } else {
        let mut res = selected;
        res.append(" ");
        res
    }
}

/// The directory to search and the name prefix for completing the word
/// `input`, where `default_path` is the directory of relative names.
pub open spec fn to_find_data_spec(input: Seq<char>, default_path: Seq<char>) -> (
    Seq<char>,
    Option<Seq<char>>,
) {
    let input = trim_seq(input);
    let d = trim_seq(default_path);
    let default_path = if has_suffix(d, "/"@) {
        d
    } else {
        d + "/"@
    };
    if input.len() == 0 {
        (default_path, None)
    } else if !input.contains('/') {
        (default_path, Some(input))
    } else {
        let parts = split_seq(input, '/');
        let file_prefix = parts.last();
        if file_prefix.len() == 0 {
            (join_seq(parts, "/"@), None)
        } else {
            (join_seq(parts.drop_last(), "/"@) + "/"@, Some(file_prefix))
        }
    }
}

/// The directory to search always ends with `/`.
pub proof fn lemma_search_dir_ends_with_slash(input: Seq<char>, default_path: Seq<char>)
    ensures
        has_suffix(to_find_data_spec(input, default_path).0, "/"@),
{
    reveal_strlit("/");
    let word = trim_seq(input);
    if word.len() > 0 && word.contains('/') {
        let parts = split_seq(word, '/');
        lemma_split_with(word, '/');
        if parts.last().len() == 0 {
            let j = join_seq(parts, "/"@);
            assert(j == join_seq(parts.drop_last(), "/"@) + "/"@ + parts.last());
            assert(j.subrange(j.len() - 1, j.len() as int) =~= "/"@);
        } else {
            let j = join_seq(parts.drop_last(), "/"@) + "/"@;
            assert(j.subrange(j.len() - 1, j.len() as int) =~= "/"@);
        }
    } else {
        let d = trim_seq(default_path);
        if !has_suffix(d, "/"@) {
            let j = d + "/"@;
            assert(j.subrange(j.len() - 1, j.len() as int) =~= "/"@);
        }
    }
}

/// The name prefix to complete is never empty and holds no `/`; a word
/// without `/` is the prefix itself (none for an empty word), searched
/// for in the default directory, with a `/` after it when it lacks one.
pub proof fn lemma_name_prefix_is_a_plain_name(input: Seq<char>, default_path: Seq<char>)
    ensures
        ({
            let fd = to_find_data_spec(input, default_path);
            let word = trim_seq(input);
            let d = trim_seq(default_path);
            &&& fd.1 matches Some(p) ==> p.len() > 0 && !p.contains('/')
            &&& !word.contains('/') ==> {
                &&& fd.0 == if has_suffix(d, "/"@) { d } else { d + "/"@ }
                &&& fd.1 == if word.len() == 0 { None } else { Some(word) }
            }
        }),
{
    let word = trim_seq(input);
    if word.contains('/') {
        lemma_split_with(word, '/');
        lemma_split_pieces_without(word, '/');
        let parts = split_seq(word, '/');
        assert(!parts[parts.len() - 1].contains('/'));
    }
}

/// A word that names a directory is split, not changed: the directory to
/// search followed by the name prefix is the (trimmed) word again.
pub proof fn lemma_search_dir_and_prefix_rebuild_word(input: Seq<char>, default_path: Seq<char>)
    requires
        trim_seq(input).contains('/'),
    ensures
        ({
            let fd = to_find_data_spec(input, default_path);
            fd.0 + match fd.1 {
                Some(p) => p,
                None => Seq::empty(),
            } == trim_seq(input)
        }),
{
    reveal_strlit("/");
    let word = trim_seq(input);
    let parts = split_seq(word, '/');
    lemma_split_with(word, '/');
    lemma_join_split(word, '/');
    assert("/"@ =~= seq!['/']);
    assert(join_seq(parts, "/"@) == join_seq(parts.drop_last(), "/"@) + "/"@ + parts.last());
    if parts.last().len() == 0 {
        assert(join_seq(parts, "/"@) + Seq::<char>::empty() =~= join_seq(parts, "/"@));
    }
}

/// Where to look for the files that complete the word `input`: in the
/// directory that the word names (up to its last `/`), else in
/// `default_path`; and the rest of the word as the name prefix.
pub fn to_find_data(input: &str, default_path: &str) -> (res: FileFindData)
    ensures
        res@ == to_find_data_spec(input@, default_path@),
{
    let input = trim(input);
    let trimmed = trim(default_path);
    let default_path = if !ends_with(trimmed, "/") {
        let mut d = trimmed.to_owned();
        d.append("/");
        d
    } else {
        trimmed.to_owned()
    };
    if input.unicode_len() == 0 {
        return FileFindData::from(default_path, None);
    }
    if !contains_char(input, '/') {
        return FileFindData::from(default_path, Some(input.to_owned()));
    }
    let mut parts = split_char(input, '/');
    proof {
        lemma_split_nonempty(input@, '/');
    }
    let ghost all = strs_view(parts@);
    let file_prefix = parts.pop().unwrap();
    assert(all.last() == file_prefix@);
    assert(strs_view(parts@) =~= all.drop_last());
    if file_prefix.unicode_len() == 0 {
        parts.push(file_prefix);
        assert(strs_view(parts@) =~= all);
        FileFindData::from(join(&parts, "/"), None)
    } else {
        let mut find_path = join(&parts, "/");
        find_path.append("/");
        FileFindData::from(find_path, Some(file_prefix.to_owned()))
    }
}

/// The name at the end of a path: the last component, with the `/` kept
/// for a directory path.
pub open spec fn path_name(p: Seq<char>) -> Seq<char> {
    if has_suffix(p, "/"@) {
        split_seq(trim_end_char(p, '/'), '/').last() + "/"@
    } else {
        split_seq(p, '/').last()
    }
}

/// The names at the ends of `paths`.
pub open spec fn names_spec(paths: Seq<Seq<char>>) -> Seq<Seq<char>> {
    paths.map_values(|p: Seq<char>| path_name(p))
}

/// The names at the ends of `paths`, each directory's with its `/`.
pub fn paths_to_names(paths: &Vec<&str>) -> (res: Vec<String>)
    ensures
        strings_view(res@) == names_spec(strs_view(paths@)),
{
    let mut names: Vec<String> = Vec::new();
    let mut i: usize = 0;
    while i < paths.len()
        invariant
            i <= paths.len(),
            strings_view(names@) == names_spec(strs_view(paths@)).take(i as int),
        decreases paths.len() - i,
    {
        let path = paths[i];
        let name = if ends_with(path, "/") {
            let base = trim_end_matches(path, '/');
            let mut name = last_piece(base, '/').to_owned();
            name.append("/");
            name
        } else {
            last_piece(path, '/').to_owned()
        };
        assert(name@ == names_spec(strs_view(paths@))[i as int]);
        names.push(name);
        assert(strings_view(names@) =~= strings_view(names@.drop_last()).push(name@));
        assert(names_spec(strs_view(paths@)).take(i + 1) =~= names_spec(strs_view(paths@)).take(
            i as int,
        ).push(name@));
        i = i + 1;
    }
    assert(names_spec(strs_view(paths@)).take(paths.len() as int) =~= names_spec(
        strs_view(paths@),
    ));
    names
}

proof fn lemma_excluding_idempotent(vs: Seq<Seq<char>>, x: Seq<char>)
    ensures
        excluding(excluding(vs, x), x) == excluding(vs, x),
    decreases vs.len(),
{
    if vs.len() > 0 {
        lemma_excluding_idempotent(vs.drop_last(), x);
        let rest = excluding(vs.drop_last(), x);
        assert(rest.push(vs.last()).drop_last() =~= rest);
    }
}

/// What `complete_path` gives for search data `fd` and the paths found
/// there (`None` when nothing could be found).
pub open spec fn complete_path_spec(
    fd: (Seq<char>, Option<Seq<char>>),
    found: Option<Seq<Seq<char>>>,
) -> Option<CompletionView> {
    let sw = match fd.1 {
        Some(p) => p,
        None => Seq::empty(),
    };
    match found {
        None => None,
        Some(f) => {
            let names = excluding(names_spec(f), sw);
            if names.len() == 0 {
                None
            } else if names.len() == 1 {
                Some((Some(whitespace_if_file_spec(remove_first_seq(names[0], sw))), None))
            } else {
                match get_prefixed_variant_spec(sw, names) {
                    Some(p) => Some((Some(remove_first_seq(p, sw)), None)),
                    None => Some((None, Some(names))),
                }
            }
        },
    }
}

/// Completes a file name from the paths `found` in the search directory
/// of `find_data`: the rest of the only name (a space after a file), the
/// rest up to the name that all others extend, or the names to choose from.
pub fn complete_path(find_data: &FileFindData, found: Option<Vec<String>>) -> (res: Option<
    Completion,
>)
    ensures
        completion_view(res) == complete_path_spec(
            find_data@,
            opt_strings_view(found),
        ),
{
    let starts_with = match find_data.file_prefix() {
        Some(p) => p,
        None => "",
    };
    assert(starts_with@ == match find_data@.1 {
        Some(p) => p,
        None => Seq::<char>::empty(),
    }) by {
        if find_data@.1 is None {
            reveal_strlit("");
            assert(starts_with@ =~= Seq::<char>::empty());
        }
    }
    let found = match found {
        None => {
            return None;
        },
        Some(f) => f,
    };
    let found_strs = as_strs(&found);
    let names = paths_to_names(&found_strs);
    let names_strs = as_strs(&names);
    let kept = exclude(&names_strs, starts_with);
    let len = kept.len();
    if len == 0 {
        return None;
    }
    if len == 1 {
        let selected = whitespace_if_file(remove_first(kept[0], starts_with));
        return Some(Completion::from_selected(selected));
    }
    proof {
        lemma_excluding_idempotent(names_spec(strings_view(found@)), starts_with@);
    }
    let variants = to_strings(&kept);
    match get_prefixed_variant(starts_with, kept) {
        Some(prefixed) => {
            let selected = remove_first(prefixed.as_str(), starts_with);
            Some(Completion::from_selected(selected))
        },
        None => Some(Completion::from_variants(variants)),
    }
}

/// The variants that a completion that selects nothing offers.
pub open spec fn offered(c: Option<CompletionView>) -> Seq<Seq<char>> {
    match c {
        Some(v) => match v.1 {
            Some(vs) => vs,
            None => Seq::empty(),
        },
        None => Seq::empty(),
    }
}

/// A completion that selects text.
pub open spec fn selects(c: Option<CompletionView>) -> bool {
    c matches Some(v) && v.0 is Some
}

/// What `complete_command` may give for the word `sw`, the builtins
/// `commands`, and the executables `found` in the search paths: a
/// builtin's selection, else an executable's selection, else all the
/// variants of both in order without repeats.
pub open spec fn complete_command_spec(
    sw: Seq<char>,
    commands: Seq<Seq<char>>,
    found: Option<Seq<Seq<char>>>,
    res: Option<CompletionView>,
) -> bool {
    let c1 = complete_to_variants_spec(sw, commands);
    let c2 = match found {
        Some(f) => complete_to_variants_spec(sw, names_spec(f)),
        None => None,
    };
    if selects(c1) {
        res == c1
    } else if selects(c2) {
        res == c2
    } else {
        let all = offered(c1) + offered(c2);
        if all.len() == 0 {
            res is None
        } else {
            match res {
                Some(r) => r.0 is None && match r.1 {
                    Some(vs) => sorted_distinct_of(vs, all),
                    None => false,
                },
                None => false,
            }
        }
    }
}

/// Completing a command is determined by its inputs: two results that
/// both meet `complete_command_spec` are equal.
pub proof fn lemma_complete_command_unique(
    sw: Seq<char>,
    commands: Seq<Seq<char>>,
    found: Option<Seq<Seq<char>>>,
    r1: Option<CompletionView>,
    r2: Option<CompletionView>,
)
    requires
        complete_command_spec(sw, commands, found, r1),
        complete_command_spec(sw, commands, found, r2),
    ensures
        r1 == r2,
{
    let c1 = complete_to_variants_spec(sw, commands);
    let c2 = match found {
        Some(f) => complete_to_variants_spec(sw, names_spec(f)),
        None => None,
    };
    if !selects(c1) && !selects(c2) {
        let all = offered(c1) + offered(c2);
        if all.len() > 0 {
            lemma_sorted_distinct_unique(offered(r1), offered(r2), all);
        }
    }
}

/// Whether a completion offers variants to choose from.
pub open spec fn offers_variants(c: Option<CompletionView>) -> bool {
    match c {
        Some(v) => v.1 is Some,
        None => false,
    }
}

proof fn lemma_offered_members(sw: Seq<char>, vs: Seq<Seq<char>>)
    ensures
        forall|i: int| 0 <= i < offered(complete_to_variants_spec(sw, vs)).len() ==> {
            let x = #[trigger] offered(complete_to_variants_spec(sw, vs))[i];
            &&& vs.contains(x)
            &&& sw.len() > 0 ==> has_prefix(x, sw) && x != sw
        },
{
    lemma_extending_members(vs, sw);
    let o = offered(complete_to_variants_spec(sw, vs));
    assert forall|i: int| 0 <= i < o.len() implies {
        let x = #[trigger] o[i];
        &&& vs.contains(x)
        &&& sw.len() > 0 ==> has_prefix(x, sw) && x != sw
    } by {
        if sw.len() > 0 {
            assert(extending(vs, sw).contains(o[i]));
        } else {
            assert(vs.contains(vs[i]));
        }
    }
}

/// Completing a command: a selection among the builtins comes first,
/// then one among the executables found; otherwise the variants of both,
/// sorted without repeats, each a builtin or the name of a found
/// executable, and each extending a non-empty word.
pub proof fn lemma_complete_command_rules(
    sw: Seq<char>,
    commands: Seq<Seq<char>>,
    found: Option<Seq<Seq<char>>>,
    res: Option<CompletionView>,
)
    requires
        complete_command_spec(sw, commands, found, res),
    ensures
        selects(complete_to_variants_spec(sw, commands)) ==> res == complete_to_variants_spec(sw, commands),
        !selects(complete_to_variants_spec(sw, commands)) && found is Some && selects(
            complete_to_variants_spec(sw, names_spec(found->0)),
        ) ==> res == complete_to_variants_spec(sw, names_spec(found->0)),
        offers_variants(res) ==> {
            &&& strictly_sorted(offered(res))
            &&& forall|i: int| 0 <= i < offered(res).len() ==> {
                let x = #[trigger] offered(res)[i];
                &&& commands.contains(x) || (found is Some && names_spec(found->0).contains(x))
                &&& sw.len() > 0 ==> has_prefix(x, sw) && x != sw
            }
        },
{
    let c1 = complete_to_variants_spec(sw, commands);
    let c2 = match found {
        Some(f) => complete_to_variants_spec(sw, names_spec(f)),
        None => None,
    };
    lemma_offered_members(sw, commands);
    if let Some(f) = found {
        lemma_offered_members(sw, names_spec(f));
    }
    if offers_variants(res) && !selects(c1) && !selects(c2) {
        let all = offered(c1) + offered(c2);
        let o = offered(res);
        assert forall|i: int| 0 <= i < o.len() implies {
            let x = #[trigger] o[i];
            &&& commands.contains(x) || (found is Some && names_spec(found->0).contains(x))
            &&& sw.len() > 0 ==> has_prefix(x, sw) && x != sw
        } by {
            assert(o.contains(o[i]));
            assert(all.contains(o[i]));
            let k = choose|k: int| 0 <= k < all.len() && all[k] == o[i];
            if k < offered(c1).len() {
                assert(offered(c1)[k] == o[i]);
            } else {
                assert(offered(c2)[k - offered(c1).len()] == o[i]);
            }
        }
    }
}

/// Completes the first word `starts_with` to a builtin of `commands` or to
/// one of the executables `found_bins` in the search paths.
pub fn complete_command(
    starts_with: &str,
    commands: &Vec<&str>,
    found_bins: Option<Vec<String>>,
) -> (res: Option<Completion>)
    ensures
        complete_command_spec(
            starts_with@,
            strs_view(commands@),
            opt_strings_view(found_bins),
            completion_view(res),
        ),
{
    let mut variants: Vec<String> = Vec::new();
    let ghost c1 = complete_to_variants_spec(starts_with@, strs_view(commands@));
    if let Some(completion) = complete_to_variants(starts_with, commands) {
        if completion.is_selected() {
            return Some(completion);
        }
        let found = completion.get_variants().unwrap();
        variants = to_strings(&found);
    }
    assert(strings_view(variants@) == offered(c1));
    let ghost c2 = if found_bins is Some {
        complete_to_variants_spec(starts_with@, names_spec(strings_view(found_bins->0@)))
    } else {
        None
    };
    let ghost v1 = strings_view(variants@);
    if let Some(paths) = found_bins {
        let paths_strs = as_strs(&paths);
        let names = paths_to_names(&paths_strs);
        let names_strs = as_strs(&names);
        if let Some(completion) = complete_to_variants(starts_with, &names_strs) {
            if completion.is_selected() {
                return Some(completion);
            }
            let found = completion.get_variants().unwrap();
            let mut more = to_strings(&found);
            variants.append(&mut more);
        }
    }
    assert(strings_view(variants@) =~= v1 + offered(c2));
    let variants = sort_dedup(variants);
    if variants.len() == 0 {
        proof {
            if (v1 + offered(c2)).len() > 0 {
                assert(strings_view(variants@).contains((v1 + offered(c2))[0]));
            }
        }
        return None;
    }
    proof {
        assert(strings_view(variants@).contains(strings_view(variants@)[0]));
        assert(!selects(c1));
        assert(!selects(c2));
    }
    Some(Completion::from_variants(variants))
}

/// What to look up before completing the input: executables that start
/// with the first word, or the files that the last word can name.
pub enum CompletionLookup {
    /// Executables in the search paths whose names start with the word.
    Bins(String),
    /// Files in a directory whose names start with a prefix.
    Files(FileFindData),
}

/// What completing `input` needs to look up, with `current_dir` as the
/// directory of relative file names.
pub fn completion_lookup(input: &str, current_dir: &str) -> (res: CompletionLookup)
    ensures
        split_seq(input@, ' ').len() == 1 ==> (res matches CompletionLookup::Bins(w) && w@
            == split_seq(input@, ' ').last()),
        split_seq(input@, ' ').len() != 1 ==> (res matches CompletionLookup::Files(fd) && fd@
            == to_find_data_spec(split_seq(input@, ' ').last(), current_dir@)),
{
    let args = split_char(input, ' ');
    let last = last_piece(input, ' ');
    if args.len() == 1 {
        CompletionLookup::Bins(last.to_owned())
    } else {
        CompletionLookup::Files(to_find_data(last, current_dir))
    }
}

/// What completing `input` may give, where `found` is what the lookup of
/// `completion_lookup` found.
pub open spec fn complete_input_spec(
    input: Seq<char>,
    commands: Seq<Seq<char>>,
    current_dir: Seq<char>,
    found: Option<Seq<Seq<char>>>,
    res: Option<CompletionView>,
) -> bool {
    let args = split_seq(input, ' ');
    if args.len() == 1 {
        complete_command_spec(args.last(), commands, found, res)
    } else {
        res == complete_path_spec(to_find_data_spec(args.last(), current_dir), found)
    }
}

/// Completes the input line: its only word as a command, or its last word
/// as a file name, using what the lookup of `completion_lookup` found.
pub fn complete_input(
    input: &str,
    commands: &Vec<&str>,
    current_dir: &str,
    found: Option<Vec<String>>,
) -> (res: Option<Completion>)
    ensures
        complete_input_spec(
            input@,
            strs_view(commands@),
            current_dir@,
            opt_strings_view(found),
            completion_view(res),
        ),
{
    let args = split_char(input, ' ');
    let last = last_piece(input, ' ');
    let len = args.len();
    if len == 1 {
        complete_command(last, commands, found)
    } else {
        let find_data = to_find_data(last, current_dir);
        complete_path(&find_data, found)
    }
}

/// The paths that a search result holds (`None` for a failure or for
/// nothing found).
pub open spec fn found_paths(r: Option<Result<Seq<Seq<char>>, Seq<char>>>) -> Option<Seq<Seq<char>>> {
    match r {
        Some(Ok(v)) => Some(v),
        _ => None,
    }
}

/// What the lookup for completing `input` finds in `listing`: for a single
/// word, the executables whose names start with it; for a later word, the
/// entries of any kind whose names start with its name prefix.
pub open spec fn lookup_found(input: Seq<char>, current_dir: Seq<char>, listing: Seq<SearchDirView>) -> Option<Seq<Seq<char>>> {
    let args = split_seq(input, ' ');
    if args.len() == 1 {
        found_paths(find_files_spec(listing, Some((1int, args.last())), Some(seq![FileType::Executable]), true))
    } else {
        let prefix = match to_find_data_spec(args.last(), current_dir).1 {
            Some(p) => p,
            None => Seq::empty(),
        };
        found_paths(find_files_spec(listing, if prefix.len() == 0 { None } else { Some((1int, prefix)) }, None, true))
    }
}

/// Completes the input line from the listing that `completion_lookup` asks
/// for: the listings of the search paths when the line is one word, else
/// the listing of the directory the last word names.
pub fn complete_from_listing(
    input: &str,
    commands: &Vec<&str>,
    current_dir: &str,
    listing: &Vec<SearchDir>,
) -> (res: Option<Completion>)
    ensures
        complete_input_spec(
            input@,
            strs_view(commands@),
            current_dir@,
            lookup_found(input@, current_dir@, dirs_view(listing@)),
            completion_view(res),
        ),
{
    let result = match completion_lookup(input, current_dir) {
        CompletionLookup::Bins(word) => find_bins_starts_with(word.as_str(), listing),
        CompletionLookup::Files(find_data) => {
            let prefix = match find_data.file_prefix() {
                Some(p) => p,
                None => "",
            };
            proof {
                if find_data@.1 is None {
                    reveal_strlit("");
                }
            }
            find_all_starts_with(prefix, listing)
        },
    };
    let found = if result.is_some() {
        Some(result.unwrap())
    } else {
        None
    };
    assert(opt_strings_view(found) == found_paths(find_view(result)));
    complete_input(input, commands, current_dir, found)
}

/// The name prefix that completing `input` looks for (empty when the word
/// names a directory only).
pub open spec fn lookup_prefix(input: Seq<char>, current_dir: Seq<char>) -> Seq<char> {
    match to_find_data_spec(split_seq(input, ' ').last(), current_dir).1 {
        Some(p) => p,
        None => Seq::empty(),
    }
}

/// For a later word every entry of the listed directory whose name starts
/// with the name prefix is a candidate, of whatever kind (a directory's
/// path with `/` after it); for a single word every executable regular
/// file whose name starts with the word is.
pub proof fn lemma_lookup_finds_every_named_entry(
    input: Seq<char>,
    current_dir: Seq<char>,
    listing: Seq<SearchDirView>,
    j: int,
    k: int,
)
    requires
        0 <= j < listing.len(),
        listing[j].1 is Some,
        0 <= k < listing[j].1->0.len(),
        listing[j].1->0[k].0 is Some,
        listing[j].1->0[k].1 is Some,
        listing[j].1->0[k].2 is Some,
    ensures
        ({
            let e = listing[j].1->0[k];
            let n = e.0->0;
            let m = e.2->0;
            let x = if m.is_dir { e.1->0 + "/"@ } else { e.1->0 };
            let args = split_seq(input, ' ');
            &&& args.len() != 1 && has_prefix(n, lookup_prefix(input, current_dir)) ==> lookup_found(
                input,
                current_dir,
                listing,
            ) is Some && lookup_found(input, current_dir, listing)->0.contains(x)
            &&& args.len() == 1 && has_prefix(n, args.last()) && m.is_file && (m.mode & 0o111u32) != 0 ==> lookup_found(
                input,
                current_dir,
                listing,
            ) is Some && lookup_found(input, current_dir, listing)->0.contains(x)
        }),
{
    let e = listing[j].1->0[k];
    assert(listed_entry(listing, j, k) == e);
    let args = split_seq(input, ' ');
    let prefix = lookup_prefix(input, current_dir);
    if args.len() != 1 && has_prefix(e.0->0, prefix) {
        lemma_search_finds_every_match(
            listing,
            if prefix.len() == 0 { None } else { Some((1int, prefix)) },
            None,
            j,
            k,
        );
    }
    let m = e.2->0;
    if args.len() == 1 && has_prefix(e.0->0, args.last()) && m.is_file && (m.mode & 0o111u32) != 0 {
        let ts = seq![FileType::Executable];
        assert(crate::fs::find::structure::type_holds(ts[0], m));
        assert(crate::fs::find::any_type(ts, m));
        lemma_search_finds_every_match(listing, Some((1int, args.last())), Some(ts), j, k);
    }
}

} // verus!
