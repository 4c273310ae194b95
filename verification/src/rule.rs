//! Rules that compare a name with a pattern.

use crate::text::{has_prefix, starts_with, str_eq};
use vstd::prelude::*;

verus! {

/// A rule on a name, holding the pattern it compares with.
pub enum Comprasion {
    /// The name is the pattern.
    Equal(String),
    /// The name starts with the pattern.
    AssertedStartsWith(String),
    /// The pattern starts with the name.
    PatternStartsWith(String),
    /// The pattern starts with the name and is longer than it.
    PatternStartsWithNotEqual(String),
}

/// Whether `value` satisfies the rule of kind `kind` with `pattern`
/// (kinds numbered in the order of `Comprasion`'s variants).
pub open spec fn rule_holds(kind: int, pattern: Seq<char>, value: Seq<char>) -> bool {
    if kind == 0 {
        value == pattern
    } else if kind == 1 {
        has_prefix(value, pattern)
    } else if kind == 2 {
        has_prefix(pattern, value)
    } else {
        has_prefix(pattern, value) && pattern != value
    }
}

impl View for Comprasion {
    type V = (int, Seq<char>);

    open spec fn view(&self) -> (int, Seq<char>) {
        match self {
            Comprasion::Equal(p) => (0, p@),
            Comprasion::AssertedStartsWith(p) => (1, p@),
            Comprasion::PatternStartsWith(p) => (2, p@),
            Comprasion::PatternStartsWithNotEqual(p) => (3, p@),
        }
    }
}

impl Comprasion {
    /// Whether `value` satisfies the rule.
    pub fn holds(&self, value: &str) -> (res: bool)
        ensures
            res == rule_holds(self@.0, self@.1, value@),
    {
        match self {
            Comprasion::Equal(p) => str_eq(value, p.as_str()),
            Comprasion::AssertedStartsWith(p) => starts_with(value, p.as_str()),
            Comprasion::PatternStartsWith(p) => starts_with(p.as_str(), value),
            Comprasion::PatternStartsWithNotEqual(p) => starts_with(p.as_str(), value) && !str_eq(
                p.as_str(),
                value,
            ),
        }
    }
}

} // verus!
