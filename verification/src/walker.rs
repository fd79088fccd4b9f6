//! The search as a machine that never touches a file system. It says which
//! directory it wants listed next; whoever drives it lists that directory
//! and hands the entries back. Between two such questions the machine goes
//! through the entries that it holds, notes the results, and decides where
//! to descend.

use crate::entry::{entry_views, DirectoryEntry, EntryView};
use crate::report::{Findings, SearchReport};
use crate::request::{RequestView, SearchRequest};
use crate::tree::found_in_entry;
use vstd::prelude::*;

verus! {

/// A listing that the search has open, and how far it has come in it.
#[verifier::ext_equal]
pub struct FrameView {
    pub entries: Seq<EntryView>,
    /// How many of the entries the search has dealt with.
    pub cursor: nat,
}

/// The mathematical content of a [`Visit`].
pub struct VisitView {
    pub path: Seq<char>,
    pub depth: nat,
    pub slot: nat,
}

/// The state of a search.
#[verifier::ext_equal]
pub struct WalkState {
    /// How many roots of the request the search has asked for.
    pub roots_started: nat,
    /// The listings that are open, the root's first, the innermost last.
    /// The entries of `frames[k]` are at level `k`.
    pub frames: Seq<FrameView>,
    /// The directory whose listing the search waits for.
    pub awaiting: Option<VisitView>,
    /// What the search has found so far.
    pub findings: Findings,
}

impl WalkState {
    /// The state of a search that has not begun.
    pub open spec fn start() -> WalkState {
        WalkState {
            roots_started: 0,
            frames: Seq::empty(),
            awaiting: None,
            findings: Findings::nothing(),
        }
    }

    /// How many entries of the innermost open listing are left.
    pub open spec fn left_on_top(self) -> nat {
        if self.frames.len() == 0 {
            0
        } else if self.frames.last().cursor < self.frames.last().entries.len() {
            (self.frames.last().entries.len() - self.frames.last().cursor) as nat
        } else {
            0
        }
    }

    /// The search has nothing left to do.
    pub open spec fn finished(self, request: RequestView) -> bool {
        &&& self.awaiting is None
        &&& self.frames.len() == 0
        &&& self.roots_started >= request.roots.len()
    }

    /// The state without the innermost open listing.
    pub open spec fn without_top(self) -> WalkState {
        WalkState { frames: self.frames.drop_last(), ..self }
    }

    /// Whether the search has dealt with every entry of the innermost open listing.
    pub open spec fn top_is_done(self) -> bool {
        self.frames.last().cursor >= self.frames.last().entries.len()
    }

    /// The entry that the search deals with next.
    pub open spec fn next_entry(self) -> EntryView {
        self.frames.last().entries[self.frames.last().cursor as int]
    }

    /// The state after the search has asked for the next root.
    pub open spec fn with_next_root(self, request: RequestView) -> WalkState {
        WalkState {
            roots_started: self.roots_started + 1,
            awaiting: Some(
                VisitView {
                    path: request.roots[self.roots_started as int],
                    depth: 0,
                    slot: self.roots_started,
                },
            ),
            ..self
        }
    }

    /// The state after the search has dealt with the next entry of the
    /// innermost open listing: it has moved past the entry; if it sees the
    /// entry, it has noted it where it is a result, and waits for its
    /// listing where it is a directory to descend into.
    pub open spec fn after_entry(self, request: RequestView) -> WalkState {
        let frame = self.frames.last();
        let entry = self.next_entry();
        let level = (self.frames.len() - 1) as nat;
        let moved = WalkState {
            frames: self.frames.update(
                self.frames.len() - 1,
                FrameView { cursor: frame.cursor + 1, ..frame },
            ),
            ..self
        };
        if !request.sees(entry) {
            moved
        } else {
            WalkState {
                findings: moved.findings.followed_by(found_in_entry(request, entry)),
                awaiting: if request.descends(entry, level) {
                    Some(
                        VisitView { path: entry.path, depth: self.frames.len(), slot: frame.cursor },
                    )
                } else {
                    None
                },
                ..moved
            }
        }
    }

    /// The state in which the search next stops: it goes through the open
    /// listings, innermost first, until it comes to a directory that it
    /// must list, and with no listing open it turns to the next root. It
    /// stops for good when no root is left.
    pub open spec fn settle(self, request: RequestView) -> WalkState
        decreases self.frames.len(), self.left_on_top(),
    {
        if self.awaiting is Some {
            self
        } else if self.frames.len() == 0 {
            if self.roots_started < request.roots.len() {
                self.with_next_root(request)
            } else {
                self
            }
        } else if self.top_is_done() {
            self.without_top().settle(request)
        } else {
            self.after_entry(request).settle(request)
        }
    }

    /// The state after the driver has answered: with the entries of the
    /// directory that the search waited for, or with `None` if it could not
    /// be read. Where the search waits for nothing the answer is dropped.
    pub open spec fn accept(self, listing: Option<Seq<EntryView>>) -> WalkState {
        match self.awaiting {
            None => self,
            Some(visit) => match listing {
                Some(entries) => WalkState {
                    frames: self.frames.push(FrameView { entries, cursor: 0 }),
                    awaiting: None,
                    ..self
                },
                None => WalkState {
                    awaiting: None,
                    findings: self.findings.followed_by(Findings::one_failure(visit.path)),
                    ..self
                },
            },
        }
    }
}

/// A directory that the search wants listed.
#[derive(Debug, PartialEq, Eq)]
pub struct Visit {
    /// The path of the directory.
    pub path: String,
    /// The level of its entries: 0 for a root.
    pub depth: usize,
    /// The place of the directory in the listing that named it; for a root,
    /// its place among the roots of the request.
    pub slot: usize,
}

impl View for Visit {
    type V = VisitView;

    open spec fn view(&self) -> VisitView {
        VisitView { path: self.path@, depth: self.depth as nat, slot: self.slot as nat }
    }
}

impl Clone for Visit {
    fn clone(&self) -> (copy: Visit)
        ensures
            copy == *self,
    {
        Visit { path: self.path.clone(), depth: self.depth, slot: self.slot }
    }
}

struct Frame {
    entries: Vec<DirectoryEntry>,
    cursor: usize,
}

/// A search in progress.
pub struct Walker {
    request: SearchRequest,
    roots_started: usize,
    frames: Vec<Frame>,
    awaiting: Option<Visit>,
    matches: Vec<String>,
    failures: Vec<String>,
}

impl View for Walker {
    type V = WalkState;

    closed spec fn view(&self) -> WalkState {
        WalkState {
            roots_started: self.roots_started as nat,
            frames: Seq::new(
                self.frames@.len(),
                |i: int|
                    FrameView {
                        entries: entry_views(self.frames@[i].entries@),
                        cursor: self.frames@[i].cursor as nat,
                    },
            ),
            awaiting: match self.awaiting {
                Some(visit) => Some(visit@),
                None => None,
            },
            findings: Findings {
                matches: self.matches.deep_view(),
                failures: self.failures.deep_view(),
            },
        }
    }
}

impl Walker {
    /// The request that the search works on.
    pub closed spec fn request(&self) -> RequestView {
        self.request@
    }

    /// A search for `request` that has not begun.
    pub fn new(request: SearchRequest) -> (walker: Walker)
        ensures
            walker@ == WalkState::start(),
            walker.request() == request@,
    {
        let walker = Walker {
            request,
            roots_started: 0,
            frames: Vec::new(),
            awaiting: None,
            matches: Vec::new(),
            failures: Vec::new(),
        };
        assert(walker@.frames =~= Seq::empty());
        assert(walker@.findings =~= Findings::nothing());
        walker
    }

    /// Goes on with the search until it needs a directory listed, and says
    /// which; `None` when the search is over. Asked again before an answer
    /// came, it names the same directory again.
    pub fn next_directory(&mut self) -> (visit: Option<Visit>)
        ensures
            final(self).request() == old(self).request(),
            final(self)@ == old(self)@.settle(old(self).request()),
            match visit {
                Some(visit) => final(self)@.awaiting == Some(visit@),
                None => final(self)@.finished(old(self).request()),
            },
    {
        let ghost request = self.request@;
        let ghost goal = self@.settle(request);
        loop
            invariant
                request == old(self).request@,
                goal == old(self)@.settle(request),
                self.request@ == request,
                self@.settle(request) == goal,
            decreases self@.frames.len(), self@.left_on_top(),
        {
            let ghost before = self@;
            let depth = self.frames.len();
            match &self.awaiting {
                Some(visit) => {
                    return Some(visit.clone());
                },
                None => {},
            }
            if depth == 0 {
                if self.roots_started < self.request.roots.len() {
                    let path = self.request.roots[self.roots_started].clone();
                    let visit = Visit { path, depth, slot: self.roots_started };
                    self.roots_started = self.roots_started + 1;
                    self.awaiting = Some(visit.clone());
                    assert(self@ =~= before.settle(request));
                    return Some(visit);
                } else {
                    return None;
                }
            }
            let top = depth - 1;
            let cursor = self.frames[top].cursor;
            if cursor >= self.frames[top].entries.len() {
                self.frames.pop();
                assert(self@ =~= before.without_top());
                continue ;
            }
            let frame = &mut self.frames[top];
            frame.cursor = cursor + 1;
            let entry = &self.frames[top].entries[cursor];
            assert(entry@ == before.next_entry());
            if self.request.sees(entry) {
                if self.request.selects(entry) {
                    self.matches.push(entry.path.clone());
                }
                if self.request.descends(entry, top) {
                    let visit = Visit { path: entry.path.clone(), depth, slot: cursor };
                    self.awaiting = Some(visit.clone());
                    assert(self@ =~= before.after_entry(request));
                    return Some(visit);
                }
            }
            assert(self@ =~= before.after_entry(request));
        }
    }

    /// Takes the driver's answer: the entries of the directory that the
    /// search asked for, or `None` if it could not be read. An answer that
    /// the search did not ask for is dropped.
    pub fn supply(&mut self, listing: Option<Vec<DirectoryEntry>>)
        ensures
            final(self).request() == old(self).request(),
            final(self)@ == old(self)@.accept(
                match listing {
                    Some(entries) => Some(entry_views(entries@)),
                    None => None,
                },
            ),
    {
        let ghost before = self@;
        match self.awaiting.take() {
            None => {
                assert(self@ =~= before);
            },
            Some(visit) => match listing {
                Some(entries) => {
                    self.frames.push(Frame { entries, cursor: 0 });
                    assert(self@ =~= before.accept(Some(entry_views(entries@))));
                },
                None => {
                    self.failures.push(visit.path);
                    assert(self@ =~= before.accept(None));
                },
            },
        }
    }

    /// Tells whether the search is over.
    pub fn is_finished(&self) -> (done: bool)
        ensures
            done == self@.finished(self.request()),
    {
        self.awaiting.is_none() && self.frames.len() == 0 && self.roots_started
            >= self.request.roots.len()
    }

    /// The paths of the results found so far.
    pub fn matches(&self) -> (paths: &Vec<String>)
        ensures
            paths.deep_view() == self@.findings.matches,
    {
        &self.matches
    }

    /// The paths of the directories that could not be read so far.
    pub fn failures(&self) -> (paths: &Vec<String>)
        ensures
            paths.deep_view() == self@.findings.failures,
    {
        &self.failures
    }

    /// Ends the search and hands out what it has found.
    pub fn into_report(self) -> (report: SearchReport)
        ensures
            report@ == self@.findings,
    {
        SearchReport { matches: self.matches, failures: self.failures }
    }
}

} // verus!
