//! Directory entries as the search sees them: a snapshot of one name in one
//! directory, taken when that directory was listed.

use vstd::prelude::*;
use vstd::string::*;

verus! {

/// What kind of thing a directory entry names.
#[derive(Clone, Copy, Debug, PartialEq, Eq, Structural)]
pub enum EntryKind {
    File,
    Directory,
    /// Symbolic links, devices, sockets and whatever else is neither of the above.
    Other,
}

/// One entry of a directory listing.
#[derive(Debug, PartialEq, Eq)]
pub struct DirectoryEntry {
    /// Path of the entry, as the search reports it and as patterns see it.
    pub path: String,
    /// Final component of `path`.
    pub name: String,
    pub kind: EntryKind,
    /// Size in bytes; meaningful for files only.
    pub size: u64,
    /// Permission bits of the entry (the low twelve bits of a Unix mode).
    pub permissions: u32,
}

/// The mathematical content of a [`DirectoryEntry`].
pub struct EntryView {
    pub path: Seq<char>,
    pub name: Seq<char>,
    pub kind: EntryKind,
    pub size: nat,
    pub permissions: u32,
}

impl View for DirectoryEntry {
    type V = EntryView;

    open spec fn view(&self) -> EntryView {
        EntryView {
            path: self.path@,
            name: self.name@,
            kind: self.kind,
            size: self.size as nat,
            permissions: self.permissions,
        }
    }
}

/// The views of the entries of a listing.
pub open spec fn entry_views(entries: Seq<DirectoryEntry>) -> Seq<EntryView> {
    Seq::new(entries.len(), |i: int| entries[i]@)
}

/// The character that marks a name as hidden when it comes first.
pub const HIDDEN_MARKER: char = '.';

/// A name is hidden when it begins with the hidden marker.
pub open spec fn hidden_name(name: Seq<char>) -> bool {
    name.len() > 0 && name[0] == HIDDEN_MARKER
}

impl EntryView {
    pub open spec fn is_hidden(self) -> bool {
        hidden_name(self.name)
    }
}

/// Tells whether `name` is hidden.
pub fn is_hidden_name(name: &str) -> (hidden: bool)
    ensures
        hidden == hidden_name(name@),
{
    !name.is_empty() && name.get_char(0) == HIDDEN_MARKER
}

impl DirectoryEntry {
    /// Tells whether the entry is hidden, that is whether its name begins with a dot.
    pub fn is_hidden(&self) -> (hidden: bool)
        ensures
            hidden == self@.is_hidden(),
    {
        is_hidden_name(self.name.as_str())
    }

}

impl Clone for DirectoryEntry {
    fn clone(&self) -> (copy: DirectoryEntry)
        ensures
            copy == *self,
    {
        DirectoryEntry {
            path: self.path.clone(),
            name: self.name.clone(),
            kind: self.kind,
            size: self.size,
            permissions: self.permissions,
        }
    }
}

} // verus!
