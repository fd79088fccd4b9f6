//! Patterns: regular expressions that the search tries on the path of each
//! entry. The expressions themselves are the `regex` crate's; this module
//! names what that crate answers and keeps only sources that it accepts.

use regex::Regex;
use vstd::prelude::*;

verus! {

/// Whether `regex::Regex::new` accepts `pattern` as a regular expression.
pub uninterp spec fn regex_compiles(pattern: Seq<char>) -> bool;

/// Whether the expression that `regex::Regex::new` compiles from `pattern`
/// has a match anywhere in `text`, as `regex::Regex::is_match` reports it.
pub uninterp spec fn regex_is_match(pattern: Seq<char>, text: Seq<char>) -> bool;

/// Calls `regex::Regex::new` on `pattern` and, where that hands back a
/// compiled expression, `regex::Regex::is_match` on it with `text`.
///
/// Trusted, not proved. The contract claims that whether `Regex::new`
/// accepts a pattern depends on the pattern alone, and that what
/// `Regex::is_match` answers depends on the pattern and the text alone. It
/// gives both outcomes a name and says nothing more of them: `None` stands
/// for a pattern that `Regex::new` refuses, whatever the text; `Some` holds
/// the answer of `Regex::is_match`, which looks for a match anywhere in
/// `text`. Neither call panics.
#[verifier::external_body]
fn regex_search(pattern: &str, text: &str) -> (found: Option<bool>)
    ensures
        found is Some <==> regex_compiles(pattern@),
        found matches Some(hit) ==> hit == regex_is_match(pattern@, text@),
{
    match Regex::new(pattern) {
        Ok(compiled) => Some(compiled.is_match(text)),
        Err(_) => None,
    }
}

/// The source of a regular expression that is known to compile.
#[derive(Debug, PartialEq, Eq)]
pub struct Pattern {
    source: String,
}

impl View for Pattern {
    type V = Seq<char>;

    closed spec fn view(&self) -> Seq<char> {
        self.source@
    }
}

impl Pattern {
    #[verifier::type_invariant]
    spec fn compiles(self) -> bool {
        regex_compiles(self.source@)
    }

    /// Checks `source` and keeps it if it is a regular expression.
    pub fn new(source: &str) -> (made: Option<Pattern>)
        ensures
            made is Some <==> regex_compiles(source@),
            made matches Some(pattern) ==> pattern@ == source@,
    {
        match regex_search(source, "") {
            Some(_) => Some(Pattern { source: source.to_owned() }),
            None => None,
        }
    }

    /// The source of the expression.
    pub fn as_str(&self) -> (source: &str)
        ensures
            source@ == self@,
    {
        self.source.as_str()
    }

    /// Tells whether the expression has a match anywhere in `text`.
    pub fn is_match(&self, text: &str) -> (hit: bool)
        ensures
            hit == regex_is_match(self@, text@),
    {
        proof {
            use_type_invariant(self);
        }
        match regex_search(self.source.as_str(), text) {
            Some(hit) => hit,
            None => false,
        }
    }
}

impl Clone for Pattern {
    fn clone(&self) -> (copy: Pattern)
        ensures
            copy == *self,
    {
        proof {
            use_type_invariant(self);
        }
        Pattern { source: self.source.clone() }
    }
}

} // verus!
