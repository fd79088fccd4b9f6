//! Moving about and looking around: what `cd` and `ls` make of a directory
//! listing.

use crate::entry::{entry_views, DirectoryEntry, EntryKind, EntryView};
use crate::text::{characters, same_text};
use vstd::prelude::*;

verus! {

/// The word that names the parent directory.
pub open spec fn parent_word() -> Seq<char> {
    "..".view()
}

pub open spec fn is_ascii_letter(c: char) -> bool {
    ('a' <= c <= 'z') || ('A' <= c <= 'Z')
}

/// Whether a path begins at a root: with a slash, or with a drive letter,
/// a colon and a backslash.
pub open spec fn is_rooted(path: Seq<char>) -> bool {
    ||| path.len() >= 1 && path[0] == '/'
    ||| path.len() >= 3 && is_ascii_letter(path[0]) && path[1] == ':' && path[2] == '\\'
}

/// Where a `cd` command wants to go.
#[derive(Debug, PartialEq, Eq)]
pub enum CdMove {
    /// Nowhere: no directory was named.
    Nowhere,
    /// Straight to a path that begins at a root.
    Rooted(String),
    /// To the parent of the working directory.
    Parent,
    /// To the entry of the working directory with this name.
    Child(String),
}

/// The mathematical content of a [`CdMove`].
pub enum CdMoveView {
    Nowhere,
    Rooted(Seq<char>),
    Parent,
    Child(Seq<char>),
}

impl View for CdMove {
    type V = CdMoveView;

    open spec fn view(&self) -> CdMoveView {
        match self {
            CdMove::Nowhere => CdMoveView::Nowhere,
            CdMove::Rooted(path) => CdMoveView::Rooted(path@),
            CdMove::Parent => CdMoveView::Parent,
            CdMove::Child(name) => CdMoveView::Child(name@),
        }
    }
}

/// Where the argument of a `cd` command leads.
pub open spec fn move_of(argument: Option<Seq<char>>) -> CdMoveView {
    match argument {
        None => CdMoveView::Nowhere,
        Some(target) => if is_rooted(target) {
            CdMoveView::Rooted(target)
        } else if target == parent_word() {
            CdMoveView::Parent
        } else {
            CdMoveView::Child(target)
        },
    }
}

/// Tells whether a path begins at a root.
pub fn begins_at_root(path: &str) -> (rooted: bool)
    ensures
        rooted == is_rooted(path@),
{
    let chars = characters(path);
    if chars.len() >= 1 && chars[0] == '/' {
        return true;
    }
    if chars.len() >= 3 {
        let letter = chars[0];
        let is_letter = ('a' <= letter && letter <= 'z') || ('A' <= letter && letter <= 'Z');
        is_letter && chars[1] == ':' && chars[2] == '\\'
    } else {
        false
    }
}

/// Reads the argument of a `cd` command.
pub fn cd_move(argument: Option<&String>) -> (target: CdMove)
    ensures
        target@ == move_of(
            match argument {
                Some(text) => Some(text@),
                None => None,
            },
        ),
{
    match argument {
        None => CdMove::Nowhere,
        Some(text) => {
            if begins_at_root(text.as_str()) {
                CdMove::Rooted(text.clone())
            } else if same_text(text.as_str(), "..") {
                CdMove::Parent
            } else {
                CdMove::Child(text.clone())
            }
        },
    }
}

/// Whether `cd` may take the entry for the one named: it has the name, and
/// it is in sight.
pub open spec fn answers_to(entry: EntryView, name: Seq<char>, show_hidden: bool) -> bool {
    entry.name == name && (show_hidden || !entry.is_hidden())
}

/// The place of the first entry from `from` on that answers to `name` and
/// is of the given kind.
pub open spec fn first_named(
    entries: Seq<EntryView>,
    name: Seq<char>,
    show_hidden: bool,
    kind: EntryKind,
    from: nat,
) -> Option<nat>
    decreases entries.len() - from,
{
    if from >= entries.len() {
        None
    } else if answers_to(entries[from as int], name, show_hidden) && entries[from as int].kind
        == kind {
        Some(from)
    } else {
        first_named(entries, name, show_hidden, kind, from + 1)
    }
}

/// What comes of a `cd` into an entry of the working directory.
#[derive(Debug, PartialEq, Eq)]
pub enum CdOutcome {
    /// The working directory becomes the directory at this path.
    Enter(String),
    /// The name is that of a file; the working directory stays.
    IsFile,
    /// No entry in sight has the name; the working directory stays.
    NotFound,
}

/// The mathematical content of a [`CdOutcome`].
pub enum CdOutcomeView {
    Enter(Seq<char>),
    IsFile,
    NotFound,
}

impl View for CdOutcome {
    type V = CdOutcomeView;

    open spec fn view(&self) -> CdOutcomeView {
        match self {
            CdOutcome::Enter(path) => CdOutcomeView::Enter(path@),
            CdOutcome::IsFile => CdOutcomeView::IsFile,
            CdOutcome::NotFound => CdOutcomeView::NotFound,
        }
    }
}

/// What comes of a `cd` to `name` in a directory with these entries: the
/// first directory in sight with that name is entered; failing that, a file
/// in sight with that name is refused as a file; failing that too, nothing
/// was found.
pub open spec fn cd_outcome(entries: Seq<EntryView>, name: Seq<char>, show_hidden: bool) -> CdOutcomeView {
    match first_named(entries, name, show_hidden, EntryKind::Directory, 0) {
        Some(place) => CdOutcomeView::Enter(entries[place as int].path),
        None => match first_named(entries, name, show_hidden, EntryKind::File, 0) {
            Some(_) => CdOutcomeView::IsFile,
            None => CdOutcomeView::NotFound,
        },
    }
}

/// Finds the first entry that answers to `name` and is of the given kind.
pub fn find_named(
    entries: &Vec<DirectoryEntry>,
    name: &str,
    show_hidden: bool,
    kind: EntryKind,
) -> (place: Option<usize>)
    ensures
        match place {
            Some(place) => {
                &&& place < entries.len()
                &&& first_named(entry_views(entries@), name@, show_hidden, kind, 0) == Some(
                    place as nat,
                )
            },
            None => first_named(entry_views(entries@), name@, show_hidden, kind, 0) is None,
        },
{
    let mut at: usize = 0;
    while at < entries.len()
        invariant
            at <= entries.len(),
            first_named(entry_views(entries@), name@, show_hidden, kind, 0) == first_named(
                entry_views(entries@),
                name@,
                show_hidden,
                kind,
                at as nat,
            ),
        decreases entries.len() - at,
    {
        let entry = &entries[at];
        assert(entry_views(entries@)[at as int] == entry@);
        if same_text(entry.name.as_str(), name) && (show_hidden || !entry.is_hidden())
            && entry.kind == kind {
            return Some(at);
        }
        at = at + 1;
    }
    None
}

/// Decides a `cd` to `name` in the directory that holds `entries`.
pub fn cd(name: &str, entries: &Vec<DirectoryEntry>, show_hidden: bool) -> (outcome: CdOutcome)
    ensures
        outcome@ == cd_outcome(entry_views(entries@), name@, show_hidden),
{
    match find_named(entries, name, show_hidden, EntryKind::Directory) {
        Some(place) => {
            assert(entry_views(entries@)[place as int] == entries[place as int]@);
            CdOutcome::Enter(entries[place].path.clone())
        },
        None => match find_named(entries, name, show_hidden, EntryKind::File) {
            Some(_) => CdOutcome::IsFile,
            None => CdOutcome::NotFound,
        },
    }
}

/// The test that `ls` puts to an entry: whether it is in sight.
pub open spec fn in_sight(show_hidden: bool) -> spec_fn(EntryView) -> bool {
    |entry: EntryView| show_hidden || !entry.is_hidden()
}

/// The name of an entry.
pub open spec fn name_of() -> spec_fn(EntryView) -> Seq<char> {
    |entry: EntryView| entry.name
}

/// What `ls` lists: the names of the entries in sight, in the order of the
/// listing.
pub open spec fn listed_names(entries: Seq<EntryView>, show_hidden: bool) -> Seq<Seq<char>> {
    entries.filter(in_sight(show_hidden)).map_values(name_of())
}

/// Lists a directory: the names of its entries, without the hidden ones
/// unless they are shown.
pub fn ls(entries: &Vec<DirectoryEntry>, show_hidden: bool) -> (names: Vec<String>)
    ensures
        names.deep_view() == listed_names(entry_views(entries@), show_hidden),
{
    let ghost views = entry_views(entries@);
    let mut names: Vec<String> = Vec::new();
    let mut at: usize = 0;
    assert(views.take(0).filter(in_sight(show_hidden)) =~= Seq::empty()) by {
        reveal(Seq::filter);
    }
    while at < entries.len()
        invariant
            at <= entries.len(),
            views == entry_views(entries@),
            names.deep_view() == listed_names(views.take(at as int), show_hidden),
        decreases entries.len() - at,
    {
        let entry = &entries[at];
        let ghost before = names.deep_view();
        let ghost seen = views.take(at as int);
        let ghost more = views.take(at + 1);
        let ghost test = in_sight(show_hidden);
        assert(more.drop_last() =~= seen);
        assert(more.last() == entry@);
        assert(test(entry@) == (show_hidden || !entry@.is_hidden()));
        assert(more.filter(test) == if test(entry@) {
            seen.filter(test).push(entry@)
        } else {
            seen.filter(test)
        }) by {
            reveal(Seq::filter);
        }
        if show_hidden || !entry.is_hidden() {
            names.push(entry.name.clone());
            assert(names.deep_view() =~= before.push(entry@.name));
            assert(seen.filter(test).push(entry@).map_values(name_of()) =~= before.push(
                entry@.name,
            ));
        }
        at = at + 1;
    }
    assert(views.take(entries.len() as int) =~= views);
    names
}

} // verus!
