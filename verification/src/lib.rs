//! A model of the relational algebra: expressions over named relations, the
//! schemas and values they range over, and their evaluation.

use crate::error::{Error, ErrorView};
use crate::text::{match_pattern, pattern_match};
use vstd::prelude::*;
use vstd::std_specs::cmp::PartialEqSpecImpl;

pub mod ast;
pub mod data;
pub mod error;
pub mod eval;
pub mod format;
pub mod graph;
pub mod simple;
pub mod sort;
pub mod text;

verus! {

/// The name of a relation or of an attribute.
#[derive(Debug, Eq, PartialOrd, Ord, Hash)]
pub struct Name(String);

impl View for Name {
    type V = Seq<char>;

    closed spec fn view(&self) -> Seq<char> {
        self.0@
    }
}

/// The longest name, in characters.
pub const NAME_MAX_LENGTH: usize = 127;

/// The pattern of an identifier: a letter or an underscore, then letters,
/// decimal digits and underscores, from the start of the text to its end.
pub open spec fn identifier_pattern() -> Seq<char> {
    "\\A[\\p{L}_][\\p{L}\\p{Nd}_]*\\z"@
}

/// A legal name is not empty, has at most 127 characters and is an identifier.
pub open spec fn is_valid_name(s: Seq<char>) -> bool {
    0 < s.len() <= NAME_MAX_LENGTH && pattern_match(identifier_pattern(), s) == Some(true)
}

impl Name {
    /// Validates `s` as a name.
    pub fn from_str(s: &str) -> (r: Result<Name, Error>)
        ensures
            is_valid_name(s@) ==> r is Ok && r->Ok_0@ == s@,
            !is_valid_name(s@) ==> r is Err && r->Err_0@ == (ErrorView::InvalidName { value: s@ }),
    {
        let matched = match_pattern("\\A[\\p{L}_][\\p{L}\\p{Nd}_]*\\z", s);
        Name::from_match(s, matched)
    }

    /// Makes the name `s`, given what matching `s` against the identifier
    /// pattern answered: it is a name when it has from 1 to 127 characters and
    /// the answer is that it matches.
    pub fn from_match(s: &str, matched: Option<bool>) -> (r: Result<Name, Error>)
        ensures
            0 < s@.len() <= NAME_MAX_LENGTH && matched == Some(true) ==> r is Ok && r->Ok_0@
                == s@,
            !(0 < s@.len() <= NAME_MAX_LENGTH && matched == Some(true)) ==> r is Err
                && r->Err_0@ == (ErrorView::InvalidName { value: s@ }),
    {
        let length = s.unicode_len();
        let is_match = match matched {
            Some(b) => b,
            None => false,
        };
        if 0 < length && length <= NAME_MAX_LENGTH && is_match {
            Ok(Name(s.to_string()))
        } else {
            Err(Error::InvalidName { value: s.to_string() })
        }
    }

    /// Makes the name `s` without checking that it is an identifier.
    pub fn new_unchecked(s: &str) -> (r: Name)
        requires
            s@.len() > 0,
        ensures
            r@ == s@,
    {
        Name(s.to_string())
    }

    /// The text of the name.
    pub fn as_str(&self) -> (r: &str)
        ensures
            r@ == self@,
    {
        self.0.as_str()
    }

    /// The text of the name, as a new string.
    pub fn to_string(&self) -> (r: String)
        ensures
            r@ == self@,
    {
        self.0.clone()
    }

    /// The text of the name.
    pub fn into_string(self) -> (r: String)
        ensures
            r@ == self@,
    {
        self.0
    }
}

impl Clone for Name {
    fn clone(&self) -> (r: Self)
        ensures
            r == *self,
    {
        Name(self.0.clone())
    }
}

impl PartialEq for Name {
    fn eq(&self, other: &Self) -> (r: bool) {
        self.0 == other.0
    }
}

impl PartialEqSpecImpl for Name {
    open spec fn obeys_eq_spec() -> bool {
        true
    }

    open spec fn eq_spec(&self, other: &Self) -> bool {
        self@ == other@
    }
}

impl core::str::FromStr for Name {
    type Err = Error;

    fn from_str(s: &str) -> (r: Result<Self, Error>)
        ensures
            is_valid_name(s@) ==> r is Ok && r->Ok_0@ == s@,
            !is_valid_name(s@) ==> r is Err && r->Err_0@ == (ErrorView::InvalidName { value: s@ }),
    {
        Name::from_str(s)
    }
}

} // verus!
