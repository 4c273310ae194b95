//! Completion of the word typed at the prompt from builtin names and the
//! executables found in the search paths.

use crate::complete::{extending, lemma_extending_members, shortest_index, to_strings};
use crate::complete::structure::as_strs;
use crate::text::{
    has_prefix, last_piece, lemma_remove_prefix, lemma_sorted_distinct_unique, remove_first, remove_first_seq, strictly_sorted,
    opt_strings_view, sort_dedup, sorted_distinct_of, split_seq, starts_with, str_eq, strings_view, strs_view,
};
use vstd::prelude::*;

verus! {

/// The view of a completion: the text to insert, or the candidates to show.
pub type CompletionView = (Option<Seq<char>>, Option<Seq<Seq<char>>>);

/// A completion of the typed word: text to add to it, or the variants to
/// choose from.
#[derive(Debug, PartialEq)]
pub struct Completion {
    selected: Option<String>,
    variants: Option<Vec<String>>,
}

impl View for Completion {
    type V = CompletionView;

    closed spec fn view(&self) -> CompletionView {
        (
            match self.selected {
                Some(s) => Some(s@),
                None => None,
            },
            match self.variants {
                Some(v) => Some(strings_view(v@)),
                None => None,
            },
        )
    }
}

impl Completion {
    /// A completion that adds `selected` to the word.
    pub fn new_selected(selected: String) -> (res: Completion)
        ensures
            res@ == (Some(selected@), None::<Seq<Seq<char>>>),
    {
        Completion { selected: Some(selected), variants: None }
    }

    /// A completion that offers `variants`.
    pub fn new_variants(variants: Vec<String>) -> (res: Completion)
        ensures
            res@ == (None::<Seq<char>>, Some(strings_view(variants@))),
    {
        Completion { selected: None, variants: Some(variants) }
    }

    /// Whether the completion adds text to the word.
    pub fn is_selected(&self) -> (res: bool)
        ensures
            res == self@.0 is Some,
    {
        self.selected.is_some()
    }

    /// The text to add, if any.
    pub fn get_selected(&self) -> (res: Option<&str>)
        ensures
            match res {
                Some(s) => self@.0 == Some(s@),
                None => self@.0 is None,
            },
    {
        match &self.selected {
            Some(s) => Some(s.as_str()),
            None => None,
        }
    }

    /// The variants offered, if any.
    pub fn get_variants(&self) -> (res: Option<Vec<&str>>)
        ensures
            match res {
                Some(v) => self@.1 == Some(strs_view(v@)),
                None => self@.1 is None,
            },
    {
        match &self.variants {
            Some(v) => Some(as_strs(v)),
            None => None,
        }
    }
}

/// The completion for the word `input` from the sorted distinct matches
/// `m`: the rest of the only match (with a space), the rest up to the
/// shortest match when all others extend it, or the matches to choose from.
pub open spec fn complete_sorted_spec(input: Seq<char>, m: Seq<Seq<char>>) -> Option<CompletionView> {
    if m.len() == 0 {
        None
    } else {
        let short = m[shortest_index(m)];
        if m.len() == 1 {
            Some((Some(remove_first_seq(short, input) + " "@), None))
        } else if forall|i: int| 0 <= i < m.len() && #[trigger] m[i] != short ==> has_prefix(m[i], short) {
            Some((Some(remove_first_seq(short, input)), None))
        } else {
            Some((None, Some(m)))
        }
    }
}

/// What completing the word `input` against `vs` gives: nothing for an
/// empty word or no candidates, else the completion of the candidates that
/// extend the word, sorted without repeats.
pub open spec fn complete_rel(input: Seq<char>, vs: Seq<Seq<char>>, c: Option<CompletionView>) -> bool {
    if input.len() == 0 || vs.len() == 0 {
        c is None
    } else {
        exists|m: Seq<Seq<char>>|
            #![trigger sorted_distinct_of(m, extending(vs, input))]
            sorted_distinct_of(m, extending(vs, input)) && c == complete_sorted_spec(input, m)
    }
}

/// Completing a word against the same candidates always gives the same
/// completion: the relation of `complete` is a function.
pub proof fn lemma_complete_rel_unique(
    input: Seq<char>,
    vs: Seq<Seq<char>>,
    c1: Option<CompletionView>,
    c2: Option<CompletionView>,
)
    requires
        complete_rel(input, vs, c1),
        complete_rel(input, vs, c2),
    ensures
        c1 == c2,
{
    if input.len() > 0 && vs.len() > 0 {
        let all = extending(vs, input);
        let m1 = choose|m: Seq<Seq<char>>|
            #![trigger sorted_distinct_of(m, all)]
            sorted_distinct_of(m, all) && c1 == complete_sorted_spec(input, m);
        let m2 = choose|m: Seq<Seq<char>>|
            #![trigger sorted_distinct_of(m, all)]
            sorted_distinct_of(m, all) && c2 == complete_sorted_spec(input, m);
        lemma_sorted_distinct_unique(m1, m2, all);
    }
}

/// The view of an optional completion.
pub open spec fn completion_view(c: Option<Completion>) -> Option<CompletionView> {
    match c {
        Some(c) => Some(c@),
        None => None,
    }
}

/// Completes the word `input` against `variants`.
pub fn complete(input: &str, variants: &Vec<&str>) -> (res: Option<Completion>)
    ensures
        complete_rel(input@, strs_view(variants@), completion_view(res)),
{
    if input.unicode_len() == 0 || variants.len() == 0 {
        return None;
    }
    let mut matches: Vec<String> = Vec::new();
    let ghost sv = strs_view(variants@);
    let mut i: usize = 0;
    while i < variants.len()
        invariant
            sv == strs_view(variants@),
            i <= variants.len(),
            strings_view(matches@) == extending(sv.take(i as int), input@),
        decreases variants.len() - i,
    {
        assert(sv.take(i + 1).drop_last() =~= sv.take(i as int));
        assert(sv.take(i + 1).last() == sv[i as int]);
        let r = variants[i];
        if starts_with(r, input) && !str_eq(r, input) {
            let owned = r.to_owned();
            matches.push(owned);
            assert(strings_view(matches@) =~= strings_view(matches@.drop_last()).push(owned@));
        }
        i = i + 1;
    }
    assert(sv.take(variants.len() as int) =~= sv);
    let matches = sort_dedup(matches);
    let ghost m = strings_view(matches@);
    assert(sorted_distinct_of(m, extending(sv, input@)));
    let len = matches.len();
    if len == 0 {
        return None;
    }
    let strs = as_strs(&matches);
    let short = strs[crate::complete::shortest(&strs)];
    if len == 1 {
        let mut selected = remove_first(short, input);
        selected.append(" ");
        return Some(Completion::new_selected(selected));
    }
    let mut is_chain = true;
    let mut j: usize = 0;
    while j < strs.len()
        invariant
            j <= strs.len(),
            strs_view(strs@) == m,
            is_chain == forall|k: int| 0 <= k < j && #[trigger] m[k] != short@ ==> has_prefix(m[k], short@),
        decreases strs.len() - j,
    {
        assert(strs@[j as int]@ == m[j as int]);
        if !str_eq(strs[j], short) && !starts_with(strs[j], short) {
            is_chain = false;
        }
        j = j + 1;
    }
    if is_chain {
        let selected = remove_first(short, input);
        Some(Completion::new_selected(selected))
    } else {
        Some(Completion::new_variants(matches))
    }
}

/// The last components of `paths`.
pub fn paths_to_names(paths: &Vec<&str>) -> (res: Vec<String>)
    ensures
        strings_view(res@) == strs_view(paths@).map_values(|p: Seq<char>| split_seq(p, '/').last()),
{
    let ghost want = strs_view(paths@).map_values(|p: Seq<char>| split_seq(p, '/').last());
    let mut names: Vec<String> = Vec::new();
    let mut i: usize = 0;
    while i < paths.len()
        invariant
            i <= paths.len(),
            want == strs_view(paths@).map_values(|p: Seq<char>| split_seq(p, '/').last()),
            strings_view(names@) == want.take(i as int),
        decreases paths.len() - i,
    {
        let name = last_piece(paths[i], '/').to_owned();
        assert(name@ == want[i as int]);
        names.push(name);
        assert(strings_view(names@) =~= strings_view(names@.drop_last()).push(name@));
        assert(want.take(i + 1) =~= want.take(i as int).push(name@));
        i = i + 1;
    }
    assert(want.take(paths.len() as int) =~= want);
    names
}

/// A completion that selects text.
pub open spec fn selects(c: Option<CompletionView>) -> bool {
    c matches Some(v) && v.0 is Some
}

/// The variants that a completion that selects nothing offers.
pub open spec fn offered(c: Option<CompletionView>) -> Seq<Seq<char>> {
    match c {
        Some(v) => match v.1 {
            Some(vs) => vs,
            None => Seq::empty(),
        },
        None => Seq::empty(),
    }
}

/// The result of completing from the builtins (`c1`, which selects
/// nothing) and from the executables (`c2`): the selection of `c2`, else
/// the variants of both, sorted without repeats, else nothing.
pub open spec fn combine_rel(
    c1: Option<CompletionView>,
    c2: Option<CompletionView>,
    res: Option<CompletionView>,
) -> bool {
    if selects(c2) {
        res == c2
    } else if c1 is None && c2 is None {
        res is None
    } else {
        match res {
            Some(r) => r.0 is None && match r.1 {
                Some(vs) => sorted_distinct_of(vs, offered(c1) + offered(c2)),
                None => false,
            },
            None => false,
        }
    }
}

/// The executables' completion `c2` for the word `input`: none when
/// nothing was found, else the completion against their names.
pub open spec fn found_rel(input: Seq<char>, found: Option<Seq<Seq<char>>>, c2: Option<CompletionView>) -> bool {
    match found {
        Some(f) => complete_rel(input, f.map_values(|p: Seq<char>| split_seq(p, '/').last()), c2),
        None => c2 is None,
    }
}

/// What completing the word `input` gives from the builtins `commands`
/// and the executable paths `found`: a selection among the builtins comes
/// first; otherwise what the executables' completion adds.
pub open spec fn complete_input_rel(
    input: Seq<char>,
    commands: Seq<Seq<char>>,
    found: Option<Seq<Seq<char>>>,
    res: Option<CompletionView>,
) -> bool {
    exists|c1: Option<CompletionView>|
        #![trigger complete_rel(input, commands, c1)]
        {
            &&& complete_rel(input, commands, c1)
            &&& selects(c1) ==> res == c1
            &&& !selects(c1) ==> exists|c2: Option<CompletionView>|
                #![trigger found_rel(input, found, c2)]
                found_rel(input, found, c2) && combine_rel(c1, c2, res)
        }
}

/// Completing the typed word is determined by the word, the builtins and
/// what was found: two results that both meet `complete_input_rel` are
/// equal.
pub proof fn lemma_complete_input_rel_unique(
    input: Seq<char>,
    commands: Seq<Seq<char>>,
    found: Option<Seq<Seq<char>>>,
    r1: Option<CompletionView>,
    r2: Option<CompletionView>,
)
    requires
        complete_input_rel(input, commands, found, r1),
        complete_input_rel(input, commands, found, r2),
    ensures
        r1 == r2,
{
    let a1 = choose|c1: Option<CompletionView>|
        #![trigger complete_rel(input, commands, c1)]
        {
            &&& complete_rel(input, commands, c1)
            &&& selects(c1) ==> r1 == c1
            &&& !selects(c1) ==> exists|c2: Option<CompletionView>|
                #![trigger found_rel(input, found, c2)]
                found_rel(input, found, c2) && combine_rel(c1, c2, r1)
        };
    let a2 = choose|c1: Option<CompletionView>|
        #![trigger complete_rel(input, commands, c1)]
        {
            &&& complete_rel(input, commands, c1)
            &&& selects(c1) ==> r2 == c1
            &&& !selects(c1) ==> exists|c2: Option<CompletionView>|
                #![trigger found_rel(input, found, c2)]
                found_rel(input, found, c2) && combine_rel(c1, c2, r2)
        };
    lemma_complete_rel_unique(input, commands, a1, a2);
    if !selects(a1) {
        let b1 = choose|c2: Option<CompletionView>|
            #![trigger found_rel(input, found, c2)]
            found_rel(input, found, c2) && combine_rel(a1, c2, r1);
        let b2 = choose|c2: Option<CompletionView>|
            #![trigger found_rel(input, found, c2)]
            found_rel(input, found, c2) && combine_rel(a1, c2, r2);
        if let Some(f) = found {
            lemma_complete_rel_unique(
                input,
                f.map_values(|p: Seq<char>| split_seq(p, '/').last()),
                b1,
                b2,
            );
        }
        if !selects(b1) && !(a1 is None && b1 is None) {
            lemma_sorted_distinct_unique(offered(r1), offered(r2), offered(a1) + offered(b1));
        }
    }
}

/// Completes the word `input` from the builtins `commands` and from the
/// names of the executables `found` in the search paths.
pub fn complete_input(input: &str, commands: &Vec<&str>, found: Option<Vec<String>>) -> (res:
    Option<Completion>)
    ensures
        complete_input_rel(
            input@,
            strs_view(commands@),
            opt_strings_view(found),
            completion_view(res),
        ),
{
    let ghost fv = opt_strings_view(found);
    let mut variants: Option<Vec<String>> = None;
    let first = complete(input, commands);
    let ghost c1 = completion_view(first);
    assert(complete_rel(input@, strs_view(commands@), c1));
    if let Some(completion) = first {
        if completion.is_selected() {
            return Some(completion);
        }
        variants = Some(to_strings(&completion.get_variants().unwrap()));
    }
    assert(!selects(c1));
    assert(variants is Some ==> strings_view(variants->0@) == offered(c1));
    assert(variants is None <==> c1 is None);
    let mut c2_witness: Option<Completion> = None;
    if let Some(found_paths) = found {
        let strs = as_strs(&found_paths);
        let names = paths_to_names(&strs);
        let name_strs = as_strs(&names);
        c2_witness = complete(input, &name_strs);
        assert(found_rel(input@, fv, completion_view(c2_witness)));
        if let Some(completion) = c2_witness {
            if completion.is_selected() {
                assert(combine_rel(c1, completion_view(Some(completion)), completion_view(Some(completion))));
                return Some(completion);
            }
            let more = to_strings(&completion.get_variants().unwrap());
            variants = match variants {
                Some(mut r) => {
                    let mut more = more;
                    r.append(&mut more);
                    Some(r)
                },
                None => Some(more),
            };
            c2_witness = Some(completion);
        }
    }
    let ghost c2 = completion_view(c2_witness);
    assert(found_rel(input@, fv, c2));
    assert(!selects(c2));
    match variants {
        Some(r) => {
            assert(strings_view(r@) =~= offered(c1) + offered(c2));
            let sorted = sort_dedup(r);
            let res = Some(Completion::new_variants(sorted));
            assert(combine_rel(c1, c2, completion_view(res)));
            res
        },
        None => {
            assert(combine_rel(c1, c2, None));
            None
        },
    }
}

/// A completion that offers variants to choose from.
pub open spec fn offers_variants(c: Option<CompletionView>) -> bool {
    match c {
        Some(v) => v.1 is Some,
        None => false,
    }
}

/// Every one of `m` extends `input`: it starts with it and is longer.
pub open spec fn all_extend(m: Seq<Seq<char>>, input: Seq<char>) -> bool {
    forall|i: int| 0 <= i < m.len() ==> has_prefix(#[trigger] m[i], input) && m[i] != input
}

/// The text of `x` after its first `n` characters.
pub open spec fn rest_after(x: Seq<char>, n: nat) -> Seq<char> {
    x.subrange(n as int, x.len() as int)
}

/// The cases of completing a word: nothing exactly when the word is empty
/// or no candidate extends it; otherwise, with `m` the extending
/// candidates sorted without repeats, the rest of the only one with a
/// space after it, the rest of the shortest one when all others extend it,
/// or `m` itself to choose from.
pub proof fn lemma_complete_cases(input: Seq<char>, vs: Seq<Seq<char>>, c: Option<CompletionView>)
    requires
        complete_rel(input, vs, c),
    ensures
        c is None <==> (input.len() == 0 || extending(vs, input).len() == 0),
        c is Some ==> exists|m: Seq<Seq<char>>|
            #![trigger sorted_distinct_of(m, extending(vs, input))]
            {
                let short = m[shortest_index(m)];
                &&& sorted_distinct_of(m, extending(vs, input))
                &&& m.len() > 0
                &&& all_extend(m, input)
                &&& m.len() == 1 ==> c == Some((Some(rest_after(m[0], input.len()) + " "@), None::<Seq<Seq<char>>>))
                &&& m.len() > 1 && (forall|i: int| 0 <= i < m.len() && #[trigger] m[i] != short ==> has_prefix(m[i], short))
                    ==> c == Some((Some(rest_after(short, input.len())), None::<Seq<Seq<char>>>))
                &&& m.len() > 1 && !(forall|i: int| 0 <= i < m.len() && #[trigger] m[i] != short ==> has_prefix(m[i], short))
                    ==> c == Some((None::<Seq<char>>, Some(m)))
            },
{
    lemma_extending_members(vs, input);
    if input.len() > 0 && vs.len() > 0 {
        let e = extending(vs, input);
        let m = choose|m: Seq<Seq<char>>|
            #![trigger sorted_distinct_of(m, extending(vs, input))]
            sorted_distinct_of(m, e) && c == complete_sorted_spec(input, m);
        assert(m.len() > 0 <==> e.len() > 0) by {
            if m.len() > 0 {
                assert(m.contains(m[0]));
            }
            if e.len() > 0 {
                assert(e.contains(e[0]));
            }
        }
        assert(all_extend(m, input)) by {
            assert forall|i: int| 0 <= i < m.len() implies has_prefix(#[trigger] m[i], input) && m[i] != input by {
                assert(m.contains(m[i]));
            }
        }
        if m.len() > 0 {
            crate::complete::lemma_shortest_in_range(m);
            let short = m[shortest_index(m)];
            lemma_remove_prefix(short, input);
            lemma_remove_prefix(m[0], input);
        }
    } else if vs.len() == 0 {
        assert(extending(vs, input).len() == 0);
    }
}

/// What completing the typed word gives: a selection among the builtins
/// comes first; and the variants it offers are sorted, without repeats,
/// and each extends the word.
pub proof fn lemma_complete_input_rules(
    input: Seq<char>,
    commands: Seq<Seq<char>>,
    found: Option<Seq<Seq<char>>>,
    res: Option<CompletionView>,
    c1: Option<CompletionView>,
)
    requires
        complete_input_rel(input, commands, found, res),
        complete_rel(input, commands, c1),
    ensures
        selects(c1) ==> res == c1,
        offers_variants(res) ==> strictly_sorted(offered(res)) && all_extend(offered(res), input),
{
    let a1 = choose|c: Option<CompletionView>|
        #![trigger complete_rel(input, commands, c)]
        {
            &&& complete_rel(input, commands, c)
            &&& selects(c) ==> res == c
            &&& !selects(c) ==> exists|c2: Option<CompletionView>|
                #![trigger found_rel(input, found, c2)]
                found_rel(input, found, c2) && combine_rel(c, c2, res)
        };
    lemma_complete_rel_unique(input, commands, a1, c1);
    lemma_offered_extend(input, commands, c1);
    if !selects(c1) {
        let b = choose|c2: Option<CompletionView>|
            #![trigger found_rel(input, found, c2)]
            found_rel(input, found, c2) && combine_rel(c1, c2, res);
        if let Some(f) = found {
            lemma_offered_extend(input, f.map_values(|p: Seq<char>| split_seq(p, '/').last()), b);
        }
        if let Some(r) = res {
            if let Some(vs) = r.1 {
                if !selects(b) {
                    let all = offered(c1) + offered(b);
                    assert forall|i: int| 0 <= i < vs.len() implies has_prefix(#[trigger] vs[i], input) && vs[i] != input by {
                        assert(vs.contains(vs[i]));
                        assert(all.contains(vs[i]));
                        let k = choose|k: int| 0 <= k < all.len() && all[k] == vs[i];
                        if k < offered(c1).len() {
                            assert(offered(c1)[k] == vs[i]);
                        } else {
                            assert(offered(b)[k - offered(c1).len()] == vs[i]);
                        }
                    }
                }
            }
        }
    }
}

proof fn lemma_offered_extend(input: Seq<char>, vs: Seq<Seq<char>>, c: Option<CompletionView>)
    requires
        complete_rel(input, vs, c),
    ensures
        all_extend(offered(c), input),
        offers_variants(c) ==> strictly_sorted(offered(c)) && !selects(c),
{
    lemma_extending_members(vs, input);
    if input.len() > 0 && vs.len() > 0 {
        let e = extending(vs, input);
        let m = choose|m: Seq<Seq<char>>|
            #![trigger sorted_distinct_of(m, extending(vs, input))]
            sorted_distinct_of(m, e) && c == complete_sorted_spec(input, m);
        assert(all_extend(m, input)) by {
            assert forall|i: int| 0 <= i < m.len() implies has_prefix(#[trigger] m[i], input) && m[i] != input by {
                assert(m.contains(m[i]));
            }
        }
    }
}

} // verus!
