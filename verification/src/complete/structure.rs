//! The data of a completion: where to look for files, and what was found.

use crate::text::{strings_view, strs_view};
use vstd::prelude::*;

verus! {

/// A directory to search and the prefix that file names must have there.
pub struct FileFindData {
    find_path: String,
    file_prefix: Option<String>,
}

impl View for FileFindData {
    type V = (Seq<char>, Option<Seq<char>>);

    closed spec fn view(&self) -> (Seq<char>, Option<Seq<char>>) {
        (
            self.find_path@,
            match self.file_prefix {
                Some(p) => Some(p@),
                None => None,
            },
        )
    }
}

impl FileFindData {
    /// Search data for `find_path` and an optional `file_prefix`.
    pub fn from(find_path: String, file_prefix: Option<String>) -> (res: FileFindData)
        ensures
            res@.0 == find_path@,
            res@.1 == match file_prefix {
                Some(p) => Some(p@),
                None => None::<Seq<char>>,
            },
    {
        FileFindData { find_path, file_prefix }
    }

    /// The directory to search.
    pub fn find_path(&self) -> (res: &str)
        ensures
            res@ == self@.0,
    {
        self.find_path.as_str()
    }

    /// The prefix that names must have, if any.
    pub fn file_prefix(&self) -> (res: Option<&str>)
        ensures
            match res {
                Some(p) => self@.1 == Some(p@),
                None => self@.1 is None,
            },
    {
        match &self.file_prefix {
            Some(p) => Some(p.as_str()),
            None => None,
        }
    }
}

/// The view of a completion: the text to insert, or the candidates to show.
pub type CompletionView = (Option<Seq<char>>, Option<Seq<Seq<char>>>);

/// A completion of the input: either text to add to it, or the variants
/// among which the user has to choose.
#[derive(Debug, PartialEq)]
pub struct Completion {
    selected: Option<String>,
    variants: Option<Vec<String>>,
}

impl View for Completion {
    type V = CompletionView;

    closed spec fn view(&self) -> CompletionView {
        (
            match self.selected {
                Some(s) => Some(s@),
                None => None,
            },
            match self.variants {
                Some(v) => Some(strings_view(v@)),
                None => None,
            },
        )
    }
}

/// A vector of strings as string slices.
pub fn as_strs(v: &Vec<String>) -> (res: Vec<&str>)
    ensures
        strs_view(res@) == strings_view(v@),
{
    let mut res: Vec<&str> = Vec::new();
    let mut i: usize = 0;
    while i < v.len()
        invariant
            i <= v.len(),
            strs_view(res@) == strings_view(v@).take(i as int),
        decreases v.len() - i,
    {
        let piece = v[i].as_str();
        assert(piece@ == strings_view(v@)[i as int]);
        res.push(piece);
        assert(strs_view(res@) =~= strs_view(res@.drop_last()).push(piece@));
        assert(strings_view(v@).take(i + 1) =~= strings_view(v@).take(i as int).push(piece@));
        i = i + 1;
    }
    assert(strings_view(v@).take(v.len() as int) =~= strings_view(v@));
    res
}

impl Completion {
    /// A completion either selects text or offers variants, never both.
    #[verifier::type_invariant]
    spec fn selects_or_offers(self) -> bool {
        self.selected is Some != self.variants is Some
    }

    /// A completion that adds `selected` to the input.
    pub fn from_selected(selected: String) -> (res: Completion)
        ensures
            res@ == (Some(selected@), None::<Seq<Seq<char>>>),
    {
        Completion { selected: Some(selected), variants: None }
    }

    /// A completion that offers `variants`.
    pub fn from_variants(variants: Vec<String>) -> (res: Completion)
        ensures
            res@ == (None::<Seq<char>>, Some(strings_view(variants@))),
    {
        Completion { selected: None, variants: Some(variants) }
    }

    /// Whether the completion adds text to the input.
    pub fn is_selected(&self) -> (res: bool)
        ensures
            res == self@.0 is Some,
    {
        self.selected.is_some()
    }

    /// The text to add, if any.
    pub fn get_selected(&self) -> (res: Option<&str>)
        ensures
            match res {
                Some(s) => self@.0 == Some(s@),
                None => self@.0 is None,
            },
            self@.0 is Some != self@.1 is Some,
    {
        proof {
            use_type_invariant(self);
        }
        match &self.selected {
            Some(s) => Some(s.as_str()),
            None => None,
        }
    }

    /// The variants offered, if any.
    pub fn get_variants(&self) -> (res: Option<Vec<&str>>)
        ensures
            match res {
                Some(v) => self@.1 == Some(strs_view(v@)),
                None => self@.1 is None,
            },
            self@.0 is Some != self@.1 is Some,
    {
        proof {
            use_type_invariant(self);
        }
        match &self.variants {
            Some(v) => Some(as_strs(v)),
            None => None,
        }
    }
}

} // verus!
