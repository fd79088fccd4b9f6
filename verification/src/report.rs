//! What a search hands back: the paths that it reports and the paths of
//! the directories that it could not read.

use vstd::prelude::*;

verus! {

/// What a search has found, as sequences of paths.
#[verifier::ext_equal]
pub struct Findings {
    /// The paths of the results, in the order in which the search met them.
    pub matches: Seq<Seq<char>>,
    /// The paths of the directories that could not be read, in the same order.
    pub failures: Seq<Seq<char>>,
}

impl Findings {
    pub open spec fn nothing() -> Findings {
        Findings { matches: Seq::empty(), failures: Seq::empty() }
    }

    pub open spec fn one_match(path: Seq<char>) -> Findings {
        Findings { matches: seq![path], failures: Seq::empty() }
    }

    pub open spec fn one_failure(path: Seq<char>) -> Findings {
        Findings { matches: Seq::empty(), failures: seq![path] }
    }

    /// These findings, and after them `later`.
    pub open spec fn followed_by(self, later: Findings) -> Findings {
        Findings {
            matches: self.matches + later.matches,
            failures: self.failures + later.failures,
        }
    }
}

/// The outcome of a search.
#[derive(Debug, PartialEq, Eq)]
pub struct SearchReport {
    /// The paths of the results, in the order in which the search met them.
    pub matches: Vec<String>,
    /// The paths of the directories that could not be read.
    pub failures: Vec<String>,
}

impl View for SearchReport {
    type V = Findings;

    open spec fn view(&self) -> Findings {
        Findings { matches: self.matches.deep_view(), failures: self.failures.deep_view() }
    }
}

} // verus!
