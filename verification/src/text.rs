//! Text primitives over the character view of strings.
//!
//! Every function here states its result over `Seq<char>`, the view that
//! vstd gives to `str` and `String`.

use vstd::prelude::*;

verus! {

/// `p` is a prefix of `s`.
pub open spec fn has_prefix(s: Seq<char>, p: Seq<char>) -> bool {
    p.len() <= s.len() && s.subrange(0, p.len() as int) == p
}

/// `p` is a suffix of `s`.
pub open spec fn has_suffix(s: Seq<char>, p: Seq<char>) -> bool {
    p.len() <= s.len() && s.subrange(s.len() - p.len(), s.len() as int) == p
}

/// Whether `s` starts with `prefix`, as `str::starts_with` with a string pattern.
pub fn starts_with(s: &str, prefix: &str) -> (res: bool)
    ensures
        res == has_prefix(s@, prefix@),
{
    let n = s.unicode_len();
    let m = prefix.unicode_len();
    if m > n {
        return false;
    }
    let mut i: usize = 0;
    while i < m
        invariant
            n == s@.len(),
            m == prefix@.len(),
            m <= n,
            i <= m,
            forall|j: int| 0 <= j < i ==> s@[j] == prefix@[j],
        decreases m - i,
    {
        if s.get_char(i) != prefix.get_char(i) {
            assert(s@.subrange(0, m as int)[i as int] != prefix@[i as int]);
            return false;
        }
        i = i + 1;
    }
    assert(s@.subrange(0, m as int) =~= prefix@);
    true
}


/// Whether `a` and `b` hold the same characters, as `==` on `str`.
pub fn str_eq(a: &str, b: &str) -> (res: bool)
    ensures
        res == (a@ == b@),
{
    if a.unicode_len() != b.unicode_len() {
        return false;
    }
    let r = starts_with(a, b);
    assert(a@ =~= a@.subrange(0, b@.len() as int));
    r
}

/// Whether `s` ends with `suffix`, as `str::ends_with` with a string pattern.
pub fn ends_with(s: &str, suffix: &str) -> (res: bool)
    ensures
        res == has_suffix(s@, suffix@),
{
    let n = s.unicode_len();
    let m = suffix.unicode_len();
    if m > n {
        return false;
    }
    let off = n - m;
    let mut i: usize = 0;
    while i < m
        invariant
            n == s@.len(),
            m == suffix@.len(),
            m <= n,
            off == n - m,
            i <= m,
            forall|j: int| 0 <= j < i ==> s@[off + j] == suffix@[j],
        decreases m - i,
    {
        if s.get_char(off + i) != suffix.get_char(i) {
            assert(s@.subrange(off as int, n as int)[i as int] != suffix@[i as int]);
            return false;
        }
        i = i + 1;
    }
    assert(s@.subrange(off as int, n as int) =~= suffix@);
    true
}

/// Whether the character `c` occurs in `s`.
pub fn contains_char(s: &str, c: char) -> (res: bool)
    ensures
        res == s@.contains(c),
{
    let n = s.unicode_len();
    let mut i: usize = 0;
    while i < n
        invariant
            n == s@.len(),
            i <= n,
            forall|j: int| 0 <= j < i ==> s@[j] != c,
        decreases n - i,
    {
        if s.get_char(i) == c {
            return true;
        }
        i = i + 1;
    }
    false
}

/// The characters with the Unicode `White_Space` property, which is what
/// `char::is_whitespace` tests.
pub open spec fn is_white_space(c: char) -> bool {
    let u = c as u32;
    ||| 0x09 <= u <= 0x0d
    ||| u == 0x20
    ||| u == 0x85
    ||| u == 0xa0
    ||| u == 0x1680
    ||| 0x2000 <= u <= 0x200a
    ||| u == 0x2028
    ||| u == 0x2029
    ||| u == 0x202f
    ||| u == 0x205f
    ||| u == 0x3000
}

/// Whether `c` is a white-space character.
pub fn is_whitespace(c: char) -> (res: bool)
    ensures
        res == is_white_space(c),
{
    let u = c as u32;
    (0x09 <= u && u <= 0x0d) || u == 0x20 || u == 0x85 || u == 0xa0 || u == 0x1680 || (0x2000
        <= u && u <= 0x200a) || u == 0x2028 || u == 0x2029 || u == 0x202f || u == 0x205f || u
        == 0x3000
}

/// `s` without its leading white space.
pub open spec fn trim_start_seq(s: Seq<char>) -> Seq<char>
    decreases s.len(),
{
    if s.len() > 0 && is_white_space(s[0]) {
        trim_start_seq(s.drop_first())
    } else {
        s
    }
}

/// `s` without its trailing white space.
pub open spec fn trim_end_seq(s: Seq<char>) -> Seq<char>
    decreases s.len(),
{
    if s.len() > 0 && is_white_space(s.last()) {
        trim_end_seq(s.drop_last())
    } else {
        s
    }
}

/// `s` without leading and trailing white space, as `str::trim` gives it.
pub open spec fn trim_seq(s: Seq<char>) -> Seq<char> {
    trim_end_seq(trim_start_seq(s))
}

proof fn lemma_trim_start_skip(s: Seq<char>, i: int)
    requires
        0 <= i <= s.len(),
        forall|j: int| 0 <= j < i ==> is_white_space(#[trigger] s[j]),
    ensures
        trim_start_seq(s) == trim_start_seq(s.subrange(i, s.len() as int)),
    decreases i,
{
    if i > 0 {
        assert(s.drop_first().subrange(i - 1, s.drop_first().len() as int) =~= s.subrange(
            i,
            s.len() as int,
        ));
        lemma_trim_start_skip(s.drop_first(), i - 1);
    } else {
        assert(s.subrange(0, s.len() as int) =~= s);
    }
}

proof fn lemma_trim_end_skip(s: Seq<char>, k: int)
    requires
        0 <= k <= s.len(),
        forall|j: int| k <= j < s.len() ==> is_white_space(#[trigger] s[j]),
    ensures
        trim_end_seq(s) == trim_end_seq(s.subrange(0, k)),
    decreases s.len() - k,
{
    if k < s.len() {
        assert(s.drop_last().subrange(0, k) =~= s.subrange(0, k));
        lemma_trim_end_skip(s.drop_last(), k);
    } else {
        assert(s.subrange(0, k) =~= s);
    }
}

/// `s` without leading and trailing white space, as `str::trim`.
pub fn trim(s: &str) -> (res: &str)
    ensures
        res@ == trim_seq(s@),
{
    let n = s.unicode_len();
    let mut a: usize = 0;
    while a < n && is_whitespace(s.get_char(a))
        invariant
            n == s@.len(),
            a <= n,
            forall|j: int| 0 <= j < a ==> is_white_space(#[trigger] s@[j]),
        decreases n - a,
    {
        a = a + 1;
    }
    proof {
        lemma_trim_start_skip(s@, a as int);
    }
    let ghost rest = s@.subrange(a as int, n as int);
    assert(a == n || !is_white_space(rest[0]));
    assert(trim_start_seq(rest) == rest);
    let mut b: usize = n;
    while b > a && is_whitespace(s.get_char(b - 1))
        invariant
            n == s@.len(),
            a <= b <= n,
            rest == s@.subrange(a as int, n as int),
            forall|j: int| b <= j < n ==> is_white_space(#[trigger] s@[j]),
        decreases b - a,
    {
        b = b - 1;
    }
    proof {
        assert forall|j: int| (b - a) <= j < rest.len() implies is_white_space(#[trigger] rest[j]) by {
            assert(rest[j] == s@[a + j]);
        }
        lemma_trim_end_skip(rest, (b - a) as int);
        assert(rest.subrange(0, (b - a) as int) =~= s@.subrange(a as int, b as int));
    }
    s.substring_char(a, b)
}


/// The views of a sequence of string slices.
pub open spec fn strs_view(v: Seq<&str>) -> Seq<Seq<char>> {
    v.map_values(|x: &str| x@)
}

/// The views of a sequence of strings.
pub open spec fn strings_view(v: Seq<String>) -> Seq<Seq<char>> {
    v.map_values(|x: String| x@)
}

/// The views of an optional vector of strings.
pub open spec fn opt_strings_view(o: Option<Vec<String>>) -> Option<Seq<Seq<char>>> {
    match o {
        Some(v) => Some(strings_view(v@)),
        None => None,
    }
}

/// The pieces of `s` between occurrences of `c`, as `str::split` with a
/// one-character pattern gives them: an empty `s` gives one empty piece.
pub open spec fn split_seq(s: Seq<char>, c: char) -> Seq<Seq<char>>
    decreases s.len(),
{
    if s.len() == 0 {
        seq![Seq::empty()]
    } else {
        let prev = split_seq(s.drop_last(), c);
        if s.last() == c {
            prev.push(Seq::empty())
        } else {
            prev.update(prev.len() - 1, prev.last().push(s.last()))
        }
    }
}

/// Splitting always gives at least one piece.
pub proof fn lemma_split_nonempty(s: Seq<char>, c: char)
    ensures
        split_seq(s, c).len() >= 1,
    decreases s.len(),
{
    if s.len() > 0 {
        lemma_split_nonempty(s.drop_last(), c);
    }
}

/// A string without `c` splits into itself alone.
pub proof fn lemma_split_without(s: Seq<char>, c: char)
    requires
        !s.contains(c),
    ensures
        split_seq(s, c) == seq![s],
    decreases s.len(),
{
    if s.len() > 0 {
        assert(!s.drop_last().contains(c)) by {
            if s.drop_last().contains(c) {
                let j = choose|j: int| 0 <= j < s.drop_last().len() && s.drop_last()[j] == c;
                assert(s[j] == c);
            }
        }
        lemma_split_without(s.drop_last(), c);
        assert(s.last() != c) by {
            assert(s[s.len() - 1] == s.last());
        }
        assert(s.drop_last().push(s.last()) =~= s);
        assert(split_seq(s, c) =~= seq![s]);
    } else {
        assert(s =~= Seq::<char>::empty());
        assert(split_seq(s, c) =~= seq![s]);
    }
}

/// No piece of a split holds the separator.
pub proof fn lemma_split_pieces_without(s: Seq<char>, c: char)
    ensures
        forall|i: int| 0 <= i < split_seq(s, c).len() ==> !(#[trigger] split_seq(s, c)[i]).contains(c),
    decreases s.len(),
{
    if s.len() == 0 {
        assert(split_seq(s, c)[0] =~= Seq::<char>::empty());
    } else {
        let prev = split_seq(s.drop_last(), c);
        lemma_split_pieces_without(s.drop_last(), c);
        lemma_split_nonempty(s.drop_last(), c);
        if s.last() == c {
            let parts = prev.push(Seq::empty());
            assert forall|i: int| 0 <= i < parts.len() implies !(#[trigger] parts[i]).contains(c) by {
                if i < prev.len() {
                    assert(parts[i] == prev[i]);
                }
            }
        } else {
            let lp = prev.last().push(s.last());
            let parts = prev.update(prev.len() - 1, lp);
            assert(!prev[prev.len() - 1].contains(c));
            assert(!lp.contains(c)) by {
                if lp.contains(c) {
                    let k = choose|k: int| 0 <= k < lp.len() && lp[k] == c;
                    if k < lp.len() - 1 {
                        assert(prev.last()[k] == c);
                    }
                }
            }
            assert forall|i: int| 0 <= i < parts.len() implies !(#[trigger] parts[i]).contains(c) by {
                if i < prev.len() - 1 {
                    assert(parts[i] == prev[i]);
                }
            }
        }
    }
}

/// A string that holds `c` splits into at least two pieces.
pub proof fn lemma_split_with(s: Seq<char>, c: char)
    requires
        s.contains(c),
    ensures
        split_seq(s, c).len() >= 2,
    decreases s.len(),
{
    lemma_split_nonempty(s.drop_last(), c);
    if s.last() != c {
        let j = choose|j: int| 0 <= j < s.len() && s[j] == c;
        assert(s.drop_last()[j] == c);
        lemma_split_with(s.drop_last(), c);
    }
}

/// The pieces of `s` between occurrences of `c`, as `str::split`.
pub fn split_char(s: &str, c: char) -> (res: Vec<&str>)
    ensures
        strs_view(res@) == split_seq(s@, c),
{
    let n = s.unicode_len();
    let mut parts: Vec<&str> = Vec::new();
    let mut start: usize = 0;
    let mut i: usize = 0;
    assert(s@.subrange(0, 0) =~= Seq::<char>::empty());
    assert(strs_view(parts@) =~= Seq::<Seq<char>>::empty());
    assert(split_seq(Seq::<char>::empty(), c) =~= seq![Seq::<char>::empty()]);
    while i < n
        invariant
            n == s@.len(),
            start <= i <= n,
            split_seq(s@.subrange(0, i as int), c) == strs_view(parts@).push(
                s@.subrange(start as int, i as int),
            ),
        decreases n - i,
    {
        let ghost pre = s@.subrange(0, i as int);
        assert(s@.subrange(0, i + 1).drop_last() =~= pre);
        if s.get_char(i) == c {
            let piece = s.substring_char(start, i);
            parts.push(piece);
            start = i + 1;
            assert(strs_view(parts@) =~= strs_view(parts@.drop_last()).push(piece@));
            assert(s@.subrange(start as int, i + 1) =~= Seq::<char>::empty());
        } else {
            assert(s@.subrange(start as int, i + 1) =~= s@.subrange(start as int, i as int).push(
                s@[i as int],
            ));
        }
        i = i + 1;
    }
    let piece = s.substring_char(start, n);
    parts.push(piece);
    assert(strs_view(parts@) =~= strs_view(parts@.drop_last()).push(piece@));
    assert(s@.subrange(0, n as int) =~= s@);
    parts
}

/// `s` without any of the copies of `c` at its end, as
/// `str::trim_end_matches` with a one-character pattern.
pub open spec fn trim_end_char(s: Seq<char>, c: char) -> Seq<char>
    decreases s.len(),
{
    if s.len() > 0 && s.last() == c {
        trim_end_char(s.drop_last(), c)
    } else {
        s
    }
}

/// `s` without the copies of `c` at its end.
pub fn trim_end_matches(s: &str, c: char) -> (res: &str)
    ensures
        res@ == trim_end_char(s@, c),
{
    let n = s.unicode_len();
    assert(s@.subrange(0, n as int) =~= s@);
    let mut b: usize = n;
    while b > 0 && s.get_char(b - 1) == c
        invariant
            n == s@.len(),
            b <= n,
            trim_end_char(s@, c) == trim_end_char(s@.subrange(0, b as int), c),
        decreases b,
    {
        assert(s@.subrange(0, b as int).drop_last() =~= s@.subrange(0, b - 1));
        b = b - 1;
    }
    s.substring_char(0, b)
}

/// The last piece of `s` split at `c`: what follows the last `c`, or all
/// of `s` when it has none.
pub fn last_piece<'a>(s: &'a str, c: char) -> (res: &'a str)
    ensures
        res@ == split_seq(s@, c).last(),
{
    let parts = split_char(s, c);
    proof {
        lemma_split_nonempty(s@, c);
    }
    let last = parts[parts.len() - 1];
    assert(strs_view(parts@)[parts.len() - 1] == last@);
    last
}

/// The pieces of `list` joined with `sep` between each two of them.
pub open spec fn join_seq(list: Seq<Seq<char>>, sep: Seq<char>) -> Seq<char>
    decreases list.len(),
{
    if list.len() == 0 {
        Seq::empty()
    } else if list.len() == 1 {
        list[0]
    } else {
        join_seq(list.drop_last(), sep) + sep + list.last()
    }
}

/// The strings of `list` joined with `sep`, as `[&str]::join`.
pub fn join(list: &Vec<&str>, sep: &str) -> (res: String)
    ensures
        res@ == join_seq(strs_view(list@), sep@),
{
    let mut res = String::new();
    let ghost lv = strs_view(list@);
    let mut i: usize = 0;
    while i < list.len()
        invariant
            lv == strs_view(list@),
            i <= list.len(),
            res@ == join_seq(lv.take(i as int), sep@),
        decreases list.len() - i,
    {
        assert(lv.take(i + 1).drop_last() =~= lv.take(i as int));
        if i != 0 {
            res.append(sep);
        }
        res.append(list[i]);
        i = i + 1;
        assert(lv.take(i as int).last() == list@[i - 1]@);
    }
    assert(lv.take(list.len() as int) =~= lv);
    res
}

/// `pat` occurs in `s` starting at index `i`.
pub open spec fn occurs_at(s: Seq<char>, pat: Seq<char>, i: int) -> bool {
    0 <= i && i + pat.len() <= s.len() && s.subrange(i, i + pat.len()) == pat
}

/// The first index at or after `from` where `pat` occurs in `s`, or -1.
pub open spec fn first_occurrence(s: Seq<char>, pat: Seq<char>, from: int) -> int
    decreases s.len() + 1 - from,
{
    if from < 0 || from + pat.len() > s.len() {
        -1
    } else if occurs_at(s, pat, from) {
        from
    } else {
        first_occurrence(s, pat, from + 1)
    }
}

/// `s` with its first occurrence of `pat` removed, as
/// `str::replacen(pat, "", 1)` gives it.
pub open spec fn remove_first_seq(s: Seq<char>, pat: Seq<char>) -> Seq<char> {
    let i = first_occurrence(s, pat, 0);
    if i < 0 {
        s
    } else {
        s.subrange(0, i) + s.subrange(i + pat.len(), s.len() as int)
    }
}

/// Removing a prefix keeps what follows it.
pub proof fn lemma_remove_prefix(s: Seq<char>, pat: Seq<char>)
    requires
        has_prefix(s, pat),
    ensures
        remove_first_seq(s, pat) == s.subrange(pat.len() as int, s.len() as int),
{
    assert(occurs_at(s, pat, 0));
    assert(s.subrange(0, 0) + s.subrange(pat.len() as int, s.len() as int) =~= s.subrange(
        pat.len() as int,
        s.len() as int,
    ));
}

/// Whether `pat` occurs in `s` at index `i`.
fn matches_at(s: &str, pat: &str, i: usize) -> (res: bool)
    requires
        i + pat@.len() <= s@.len(),
    ensures
        res == occurs_at(s@, pat@, i as int),
{
    let n = s.unicode_len();
    let m = pat.unicode_len();
    let mut j: usize = 0;
    while j < m
        invariant
            n == s@.len(),
            m == pat@.len(),
            i + m <= s@.len(),
            j <= m,
            forall|k: int| 0 <= k < j ==> s@[i + k] == pat@[k],
        decreases m - j,
    {
        if s.get_char(i + j) != pat.get_char(j) {
            assert(s@.subrange(i as int, i + m)[j as int] != pat@[j as int]);
            return false;
        }
        j = j + 1;
    }
    assert(s@.subrange(i as int, i + m) =~= pat@);
    true
}

/// `s` with its first occurrence of `pat` removed, as `str::replacen(pat, "", 1)`.
pub fn remove_first(s: &str, pat: &str) -> (res: String)
    ensures
        res@ == remove_first_seq(s@, pat@),
{
    let n = s.unicode_len();
    let m = pat.unicode_len();
    if m > n {
        return s.to_owned();
    }
    let last = n - m;
    let mut i: usize = 0;
    loop
        invariant
            n == s@.len(),
            m == pat@.len(),
            m <= n,
            last == n - m,
            i <= last,
            first_occurrence(s@, pat@, 0) == first_occurrence(s@, pat@, i as int),
        decreases last - i,
    {
        if matches_at(s, pat, i) {
            let mut res = s.substring_char(0, i).to_owned();
            res.append(s.substring_char(i + m, n));
            return res;
        }
        if i == last {
            assert(first_occurrence(s@, pat@, (i + 1) as int) == -1);
            return s.to_owned();
        }
        i = i + 1;
    }
}


/// `a` comes strictly before `b` in the lexicographic order of code points,
/// which is the order of `String` (its UTF-8 bytes compare in the same order).
pub open spec fn lex_lt(a: Seq<char>, b: Seq<char>) -> bool
    decreases a.len(),
{
    if a.len() == 0 {
        b.len() > 0
    } else if b.len() == 0 {
        false
    } else if (a[0] as u32) < (b[0] as u32) {
        true
    } else if (a[0] as u32) > (b[0] as u32) {
        false
    } else {
        lex_lt(a.drop_first(), b.drop_first())
    }
}

proof fn lemma_char_u32_inj(x: char, y: char)
    requires
        x as u32 == y as u32,
    ensures
        x == y,
{
}

/// The order is irreflexive.
pub proof fn lemma_lex_irreflexive(a: Seq<char>)
    ensures
        !lex_lt(a, a),
    decreases a.len(),
{
    if a.len() > 0 {
        lemma_lex_irreflexive(a.drop_first());
    }
}

/// The order is transitive.
pub proof fn lemma_lex_transitive(a: Seq<char>, b: Seq<char>, c: Seq<char>)
    requires
        lex_lt(a, b),
        lex_lt(b, c),
    ensures
        lex_lt(a, c),
    decreases a.len(),
{
    if a.len() > 0 && b.len() > 0 && c.len() > 0 {
        if (a[0] as u32) == (b[0] as u32) && (b[0] as u32) == (c[0] as u32) {
            lemma_lex_transitive(a.drop_first(), b.drop_first(), c.drop_first());
        }
    }
}

/// Any two different sequences are ordered one way or the other.
pub proof fn lemma_lex_total(a: Seq<char>, b: Seq<char>)
    requires
        a != b,
    ensures
        lex_lt(a, b) || lex_lt(b, a),
    decreases a.len(),
{
    if a.len() > 0 && b.len() > 0 && (a[0] as u32) == (b[0] as u32) {
        lemma_char_u32_inj(a[0], b[0]);
        if a.drop_first() == b.drop_first() {
            assert(a =~= seq![a[0]] + a.drop_first());
            assert(b =~= seq![b[0]] + b.drop_first());
        }
        lemma_lex_total(a.drop_first(), b.drop_first());
    } else if a.len() == 0 && b.len() == 0 {
        assert(a =~= b);
    }
}

/// Whether `a` comes strictly before `b`, as `<` on `String`.
pub fn str_lt(a: &str, b: &str) -> (res: bool)
    ensures
        res == lex_lt(a@, b@),
{
    let n = a.unicode_len();
    let m = b.unicode_len();
    let mut i: usize = 0;
    assert(a@.skip(0) =~= a@);
    assert(b@.skip(0) =~= b@);
    loop
        invariant
            n == a@.len(),
            m == b@.len(),
            i <= n,
            i <= m,
            lex_lt(a@, b@) == lex_lt(a@.skip(i as int), b@.skip(i as int)),
        decreases n - i,
    {
        if i == n {
            return i < m;
        }
        if i == m {
            return false;
        }
        let x = a.get_char(i);
        let y = b.get_char(i);
        if (x as u32) < (y as u32) {
            return true;
        }
        if (x as u32) > (y as u32) {
            return false;
        }
        assert(a@.skip(i as int).drop_first() =~= a@.skip(i + 1));
        assert(b@.skip(i as int).drop_first() =~= b@.skip(i + 1));
        i = i + 1;
    }
}

/// `v` is strictly increasing in the order of `lex_lt`.
pub open spec fn strictly_sorted(v: Seq<Seq<char>>) -> bool {
    forall|i: int, j: int| 0 <= i < j < v.len() ==> lex_lt(#[trigger] v[i], #[trigger] v[j])
}

/// `v` holds the distinct strings of `all` in increasing order.
pub open spec fn sorted_distinct_of(v: Seq<Seq<char>>, all: Seq<Seq<char>>) -> bool {
    strictly_sorted(v) && forall|x: Seq<char>| v.contains(x) <==> all.contains(x)
}

proof fn lemma_sorted_first_least(v: Seq<Seq<char>>, x: Seq<char>)
    requires
        strictly_sorted(v),
        v.contains(x),
    ensures
        x == v[0] || lex_lt(v[0], x),
{
    let k = choose|k: int| 0 <= k < v.len() && v[k] == x;
    if k > 0 {
        assert(lex_lt(v[0], v[k]));
    }
}

/// The distinct strings of a sequence have only one increasing order:
/// two increasing sequences of the same strings are equal.
pub proof fn lemma_sorted_distinct_unique(a: Seq<Seq<char>>, b: Seq<Seq<char>>, all: Seq<Seq<char>>)
    requires
        sorted_distinct_of(a, all),
        sorted_distinct_of(b, all),
    ensures
        a == b,
    decreases a.len(),
{
    if a.len() == 0 {
        if b.len() > 0 {
            assert(b.contains(b[0]));
        }
        assert(a =~= b);
    } else {
        assert(a.contains(a[0]));
        assert(b.len() > 0);
        assert(b.contains(b[0]));
        lemma_sorted_first_least(a, b[0]);
        lemma_sorted_first_least(b, a[0]);
        if a[0] != b[0] {
            lemma_lex_transitive(a[0], b[0], a[0]);
            lemma_lex_irreflexive(a[0]);
        }
        let ra = a.drop_first();
        let rb = b.drop_first();
        assert(strictly_sorted(ra)) by {
            assert forall|i: int, j: int| 0 <= i < j < ra.len() implies lex_lt(
                #[trigger] ra[i],
                #[trigger] ra[j],
            ) by {
                assert(lex_lt(a[i + 1], a[j + 1]));
            }
        }
        assert(strictly_sorted(rb)) by {
            assert forall|i: int, j: int| 0 <= i < j < rb.len() implies lex_lt(
                #[trigger] rb[i],
                #[trigger] rb[j],
            ) by {
                assert(lex_lt(b[i + 1], b[j + 1]));
            }
        }
        assert forall|x: Seq<char>| rb.contains(x) <==> ra.contains(x) by {
            if ra.contains(x) {
                let k = choose|k: int| 0 <= k < ra.len() && ra[k] == x;
                assert(lex_lt(a[0], a[k + 1]));
                assert(a.contains(x));
                assert(b.contains(x));
                if x == b[0] {
                    lemma_lex_irreflexive(x);
                }
                let m = choose|m: int| 0 <= m < b.len() && b[m] == x;
                assert(m > 0);
                assert(rb[m - 1] == x);
            }
            if rb.contains(x) {
                let k = choose|k: int| 0 <= k < rb.len() && rb[k] == x;
                assert(lex_lt(b[0], b[k + 1]));
                assert(b.contains(x));
                assert(a.contains(x));
                if x == a[0] {
                    lemma_lex_irreflexive(x);
                }
                let m = choose|m: int| 0 <= m < a.len() && a[m] == x;
                assert(m > 0);
                assert(ra[m - 1] == x);
            }
        }
        lemma_sorted_distinct_unique(ra, rb, ra);
        assert(a =~= seq![a[0]] + ra);
        assert(b =~= seq![b[0]] + rb);
    }
}

/// The distinct strings of `v` in increasing order, which is what
/// `sort_unstable` followed by `dedup` leaves in a `Vec<String>`.
pub fn sort_dedup(v: Vec<String>) -> (res: Vec<String>)
    ensures
        strictly_sorted(strings_view(res@)),
        forall|x: Seq<char>| strings_view(res@).contains(x) <==> strings_view(v@).contains(x),
{
    let mut res: Vec<String> = Vec::new();
    let mut i: usize = 0;
    while i < v.len()
        invariant
            i <= v.len(),
            strictly_sorted(strings_view(res@)),
            forall|x: Seq<char>|
                strings_view(res@).contains(x) <==> strings_view(v@.take(i as int)).contains(x),
        decreases v.len() - i,
    {
        let x = &v[i];
        let mut p: usize = 0;
        while p < res.len() && str_lt(res[p].as_str(), x.as_str())
            invariant
                p <= res.len(),
                forall|k: int| 0 <= k < p ==> lex_lt(#[trigger] strings_view(res@)[k], x@),
            decreases res.len() - p,
        {
            p = p + 1;
        }
        let ghost old_res = strings_view(res@);
        if p < res.len() && res[p] == *x {
            assert(old_res[p as int] == x@);
        } else {
            if p < res.len() {
                proof {
                    lemma_lex_total(old_res[p as int], x@);
                }
            }
            res.insert(p, x.clone());
            proof {
                let nr = strings_view(res@);
                assert(nr =~= old_res.insert(p as int, x@));
                assert forall|a: int, b: int| 0 <= a < b < nr.len() implies lex_lt(
                    #[trigger] nr[a],
                    #[trigger] nr[b],
                ) by {
                    if a < p && b == p {
                    } else if a < p && b > p {
                        assert(lex_lt(old_res[a], old_res[b - 1]));
                    } else if a == p && b > p {
                        if b - 1 > p {
                            assert(lex_lt(old_res[p as int], old_res[b - 1]));
                            lemma_lex_transitive(x@, old_res[p as int], old_res[b - 1]);
                        }
                    } else if a > p {
                        assert(lex_lt(old_res[a - 1], old_res[b - 1]));
                    } else {
                        assert(lex_lt(old_res[a], old_res[b]));
                    }
                }
                assert forall|y: Seq<char>| nr.contains(y) <==> old_res.contains(y) || y == x@ by {
                    if nr.contains(y) {
                        let k = choose|k: int| 0 <= k < nr.len() && nr[k] == y;
                        if k < p {
                            assert(old_res[k] == y);
                        } else if k > p {
                            assert(old_res[k - 1] == y);
                        }
                    }
                    if old_res.contains(y) {
                        let k = choose|k: int| 0 <= k < old_res.len() && old_res[k] == y;
                        if k < p {
                            assert(nr[k] == y);
                        } else {
                            assert(nr[k + 1] == y);
                        }
                    }
                    if y == x@ {
                        assert(nr[p as int] == y);
                    }
                }
            }
        }
        proof {
            let vt = strings_view(v@.take(i + 1));
            let vp = strings_view(v@.take(i as int));
            assert(vt =~= vp.push(x@));
            assert forall|y: Seq<char>| vt.contains(y) <==> vp.contains(y) || y == x@ by {
                if vt.contains(y) {
                    let k = choose|k: int| 0 <= k < vt.len() && vt[k] == y;
                    if k < vp.len() {
                        assert(vp[k] == y);
                    }
                }
                if vp.contains(y) {
                    let k = choose|k: int| 0 <= k < vp.len() && vp[k] == y;
                    assert(vt[k] == y);
                }
                if y == x@ {
                    assert(vt[vp.len() as int] == y);
                }
            }
            if p < old_res.len() && old_res[p as int] == x@ {
                assert(old_res.contains(x@));
            }
        }
        i = i + 1;
    }
    assert(v@.take(v.len() as int) =~= v@);
    res
}


/// `c` is one of the ASCII digits `0` to `9`.
pub open spec fn is_digit(c: char) -> bool {
    '0' <= c <= '9'
}

/// The value of the decimal digit `c`.
pub open spec fn digit_value(c: char) -> nat {
    ((c as u32) - ('0' as u32)) as nat
}

/// The value of the decimal numeral `d`, most significant digit first.
pub open spec fn digits_value(d: Seq<char>) -> nat
    decreases d.len(),
{
    if d.len() == 0 {
        0
    } else {
        digits_value(d.drop_last()) * 10 + digit_value(d.last())
    }
}

/// Every character of `d` is a decimal digit.
pub open spec fn all_digits(d: Seq<char>) -> bool {
    forall|i: int| 0 <= i < d.len() ==> is_digit(#[trigger] d[i])
}

/// The digits that `usize::from_str` reads: one leading `+` is allowed
/// before at least one more character.
pub open spec fn unsigned_digits(s: Seq<char>) -> Seq<char> {
    if s.len() > 1 && s[0] == '+' {
        s.drop_first()
    } else {
        s
    }
}

/// What `s.parse::<usize>()` gives: the value of a non-empty decimal
/// numeral (after an optional `+`) that fits in a `usize`, and nothing else.
pub open spec fn parse_usize_spec(s: Seq<char>) -> Option<usize> {
    let d = unsigned_digits(s);
    if d.len() > 0 && all_digits(d) && digits_value(d) <= usize::MAX {
        Some(digits_value(d) as usize)
    } else {
        None
    }
}

proof fn lemma_digits_value_grows(d: Seq<char>, i: int, j: int)
    requires
        0 <= i <= j <= d.len(),
    ensures
        digits_value(d.take(i)) <= digits_value(d.take(j)),
    decreases j - i,
{
    if i < j {
        lemma_digits_value_grows(d, i, j - 1);
        assert(d.take(j).drop_last() =~= d.take(j - 1));
    }
}

/// The number that `s` spells in decimal, as `s.parse::<usize>().ok()`.
pub fn parse_usize(s: &str) -> (res: Option<usize>)
    ensures
        res == parse_usize_spec(s@),
{
    let n = s.unicode_len();
    let start: usize = if n > 1 && s.get_char(0) == '+' {
        1
    } else {
        0
    };
    let ghost d = unsigned_digits(s@);
    assert(d =~= s@.skip(start as int));
    if start == n {
        return None;
    }
    let mut acc: usize = 0;
    let mut i: usize = start;
    while i < n
        invariant
            n == s@.len(),
            start <= i <= n,
            d == s@.skip(start as int),
            d == unsigned_digits(s@),
            all_digits(d.take(i - start)),
            acc == digits_value(d.take(i - start)),
        decreases n - i,
    {
        let c = s.get_char(i);
        let ghost k = (i - start) as int;
        assert(d[k] == c);
        assert(d.take(k + 1).drop_last() =~= d.take(k));
        if c < '0' || c > '9' {
            assert(!is_digit(d[k]));
            assert(!all_digits(d));
            return None;
        }
        assert(all_digits(d.take(k + 1)));
        let digit = (c as u32 - '0' as u32) as usize;
        assert(d.take(k + 1).last() == c);
        assert(digits_value(d.take(k + 1)) == acc * 10 + digit);
        let next = match acc.checked_mul(10) {
            Some(m) => m.checked_add(digit),
            None => None,
        };
        match next {
            Some(v) => {
                acc = v;
            },
            None => {
                proof {
                    lemma_digits_value_grows(d, k + 1, d.len() as int);
                    assert(d.take(d.len() as int) =~= d);
                }
                return None;
            },
        }
        i = i + 1;
    }
    assert(d.take(n - start) =~= d);
    Some(acc)
}

/// The ASCII digit for `v`, which is below ten.
pub open spec fn digit_char(v: nat) -> char {
    (('0' as u32) + v) as char
}

/// The decimal numeral of `v`, as `usize::to_string` writes it.
pub open spec fn decimal_seq(v: nat) -> Seq<char>
    decreases v,
{
    if v < 10 {
        seq![digit_char(v)]
    } else {
        decimal_seq(v / 10).push(digit_char(v % 10))
    }
}

proof fn lemma_decimal_digits(v: nat)
    ensures
        decimal_seq(v).len() > 0,
        all_digits(decimal_seq(v)),
        digits_value(decimal_seq(v)) == v,
    decreases v,
{
    if v >= 10 {
        lemma_decimal_digits(v / 10);
        let d = decimal_seq(v);
        assert(d.drop_last() =~= decimal_seq(v / 10));
        assert(digit_value(d.last()) == v % 10);
        assert(digits_value(d) == digits_value(d.drop_last()) * 10 + digit_value(d.last()));
        assert(v == (v / 10) * 10 + v % 10);
    } else {
        let c = digit_char(v);
        assert(c as u32 == 48 + v);
        assert(digit_value(c) == v);
        assert(decimal_seq(v).drop_last() =~= Seq::<char>::empty());
        assert(digit_value(decimal_seq(v).last()) == v);
        assert(digits_value(Seq::<char>::empty()) == 0);
        assert(digits_value(decimal_seq(v)) == v);
    }
}

/// Reading back a written number gives the number: `usize::to_string`
/// followed by `parse::<usize>` is the identity.
pub proof fn lemma_parse_reads_decimal(n: usize)
    ensures
        parse_usize_spec(decimal_seq(n as nat)) == Some(n),
{
    lemma_decimal_digits(n as nat);
    let d = decimal_seq(n as nat);
    assert(is_digit(d[0]));
    assert(unsigned_digits(d) == d);
}

/// Splitting at `c` and joining the pieces with `c` gives back the string.
pub proof fn lemma_join_split(s: Seq<char>, c: char)
    ensures
        join_seq(split_seq(s, c), seq![c]) == s,
    decreases s.len(),
{
    if s.len() > 0 {
        let prev = split_seq(s.drop_last(), c);
        lemma_join_split(s.drop_last(), c);
        lemma_split_nonempty(s.drop_last(), c);
        if s.last() == c {
            let parts = prev.push(Seq::empty());
            assert(parts.drop_last() =~= prev);
            assert(join_seq(parts, seq![c]) =~= s);
        } else {
            let parts = prev.update(prev.len() - 1, prev.last().push(s.last()));
            if prev.len() == 1 {
                assert(join_seq(parts, seq![c]) =~= s);
            } else {
                assert(parts.drop_last() =~= prev.drop_last());
                assert(join_seq(parts, seq![c]) =~= join_seq(prev, seq![c]).push(s.last()));
                assert(join_seq(parts, seq![c]) =~= s);
            }
        }
    }
}

/// Appends `c` to `s` (std's `String::push`).
#[verifier::external_body]
pub fn push_char(s: &mut String, c: char)
    ensures
        final(s)@ == old(s)@.push(c),
{
    s.push(c);
}

/// The decimal numeral of `v`, as `v.to_string()`.
pub fn usize_to_string(v: usize) -> (res: String)
    ensures
        res@ == decimal_seq(v as nat),
    decreases v,
{
    let mut s = if v < 10 {
        String::new()
    } else {
        usize_to_string(v / 10)
    };
    let d = (v % 10) as u8;
    let c = (48u8 + d) as char;
    assert(c == digit_char((v % 10) as nat));
    push_char(&mut s, c);
    if v < 10 {
        assert(s@ =~= seq![digit_char(v as nat)]);
    }
    s
}

/// The text that `bytes` encode in UTF-8, when they are valid UTF-8
/// (std's `String::from_utf8`, which fails exactly on invalid input).
#[verifier::external_body]
pub fn utf8_to_string(bytes: Vec<u8>) -> (res: Option<String>)
    ensures
        res is Some <==> vstd::utf8::valid_utf8(bytes@),
        res matches Some(s) ==> s@ == vstd::utf8::decode_utf8(bytes@),
{
    String::from_utf8(bytes).ok()
}

} // verus!
