//! What a search is asked to do, and the rules by which it judges an entry.

use crate::entry::{DirectoryEntry, EntryKind, EntryView};
use crate::pattern::{regex_is_match, Pattern};
use crate::permission::PermissionFilter;
use crate::text::{ends_with_extension, has_extension};
use vstd::prelude::*;

verus! {

/// One search: where to start, what to look for, and what to leave out.
#[derive(Debug, PartialEq, Eq)]
pub struct SearchRequest {
    /// The directories to search, in the order in which they are searched.
    pub roots: Vec<String>,
    /// The pattern that the path of a result must match; `None` matches every path.
    pub pattern: Option<Pattern>,
    /// The least size, in bytes, of a file that may be a result.
    pub min_size: Option<u64>,
    /// Whether directories may be results. Without it only files are.
    pub include_directories: bool,
    /// How many levels below a root the search may list. The entries of a
    /// root are at level 0; `Some(0)` lists the roots and nothing below.
    pub max_depth: Option<u32>,
    /// The extension that a file must have to be a result.
    pub extension: Option<String>,
    /// The permissions that a result must have.
    pub permission: Option<PermissionFilter>,
    /// Whether hidden entries are looked at. Without it a hidden entry is
    /// neither a result nor, if it is a directory, listed.
    pub show_hidden: bool,
}

/// The mathematical content of a [`SearchRequest`].
#[verifier::ext_equal]
pub struct RequestView {
    pub roots: Seq<Seq<char>>,
    pub pattern: Option<Seq<char>>,
    pub min_size: Option<nat>,
    pub include_directories: bool,
    pub max_depth: Option<nat>,
    pub extension: Option<Seq<char>>,
    pub permission: Option<PermissionFilter>,
    pub show_hidden: bool,
}

impl View for SearchRequest {
    type V = RequestView;

    open spec fn view(&self) -> RequestView {
        RequestView {
            roots: self.roots.deep_view(),
            pattern: match self.pattern {
                Some(pattern) => Some(pattern@),
                None => None,
            },
            min_size: match self.min_size {
                Some(size) => Some(size as nat),
                None => None,
            },
            include_directories: self.include_directories,
            max_depth: match self.max_depth {
                Some(depth) => Some(depth as nat),
                None => None,
            },
            extension: match self.extension {
                Some(extension) => Some(extension@),
                None => None,
            },
            permission: self.permission,
            show_hidden: self.show_hidden,
        }
    }
}

impl RequestView {
    /// Whether the search looks at the entry at all.
    pub open spec fn sees(self, entry: EntryView) -> bool {
        self.show_hidden || !entry.is_hidden()
    }

    /// Files may always be results, directories only where the request
    /// includes them, anything else never.
    pub open spec fn kind_passes(self, entry: EntryView) -> bool {
        match entry.kind {
            EntryKind::File => true,
            EntryKind::Directory => self.include_directories,
            EntryKind::Other => false,
        }
    }

    /// A file must have the least size; what is no file is exempt.
    pub open spec fn size_passes(self, entry: EntryView) -> bool {
        match self.min_size {
            Some(least) => entry.kind != EntryKind::File || entry.size >= least,
            None => true,
        }
    }

    /// A file must have the extension; what is no file is exempt.
    pub open spec fn extension_passes(self, entry: EntryView) -> bool {
        match self.extension {
            Some(extension) => entry.kind != EntryKind::File || has_extension(
                entry.name,
                extension,
            ),
            None => true,
        }
    }

    /// The entry's permission bits must pass the permission filter.
    pub open spec fn permission_passes(self, entry: EntryView) -> bool {
        match self.permission {
            Some(filter) => filter.admits(entry.permissions),
            None => true,
        }
    }

    /// Whether the entry passes every filter of the request.
    pub open spec fn passes_filters(self, entry: EntryView) -> bool {
        &&& self.kind_passes(entry)
        &&& self.size_passes(entry)
        &&& self.extension_passes(entry)
        &&& self.permission_passes(entry)
    }

    /// Whether the request's pattern has a match anywhere in `path`.
    pub open spec fn matches(self, path: Seq<char>) -> bool {
        match self.pattern {
            Some(pattern) => regex_is_match(pattern, path),
            None => true,
        }
    }

    /// Whether an entry that the search sees is a result: it passes every
    /// filter and its path matches the pattern.
    pub open spec fn selects(self, entry: EntryView) -> bool {
        self.passes_filters(entry) && self.matches(entry.path)
    }

    /// Whether the search lists an entry that it sees at `level`: it is a
    /// directory, and the depth limit allows one more level.
    pub open spec fn descends(self, entry: EntryView, level: nat) -> bool {
        &&& entry.kind == EntryKind::Directory
        &&& match self.max_depth {
            Some(limit) => level < limit,
            None => true,
        }
    }
}

impl SearchRequest {
    /// A search under `roots` with no pattern and no filter: it reports
    /// every file in sight, at any depth.
    pub fn new(roots: Vec<String>) -> (request: SearchRequest)
        ensures
            request@ == (RequestView {
                roots: roots.deep_view(),
                pattern: None,
                min_size: None,
                include_directories: false,
                max_depth: None,
                extension: None,
                permission: None,
                show_hidden: false,
            }),
    {
        SearchRequest {
            roots,
            pattern: None,
            min_size: None,
            include_directories: false,
            max_depth: None,
            extension: None,
            permission: None,
            show_hidden: false,
        }
    }

    /// Tells whether the search looks at the entry at all.
    pub fn sees(&self, entry: &DirectoryEntry) -> (seen: bool)
        ensures
            seen == self@.sees(entry@),
    {
        self.show_hidden || !entry.is_hidden()
    }

    /// Evaluates the filters on an entry, stopping at the first that fails.
    pub fn passes_filters(&self, entry: &DirectoryEntry) -> (pass: bool)
        ensures
            pass == self@.passes_filters(entry@),
    {
        let is_file = match entry.kind {
            EntryKind::File => true,
            EntryKind::Directory => {
                if !self.include_directories {
                    return false;
                }
                false
            },
            EntryKind::Other => {
                return false;
            },
        };
        if is_file {
            match self.min_size {
                Some(least) => {
                    if entry.size < least {
                        return false;
                    }
                },
                None => {},
            }
            match &self.extension {
                Some(extension) => {
                    if !ends_with_extension(entry.name.as_str(), extension.as_str()) {
                        return false;
                    }
                },
                None => {},
            }
        }
        match &self.permission {
            Some(filter) => filter.allows(entry.permissions),
            None => true,
        }
    }

    /// Tells whether the request's pattern has a match anywhere in `path`.
    pub fn matches(&self, path: &str) -> (hit: bool)
        ensures
            hit == self@.matches(path@),
    {
        match &self.pattern {
            Some(pattern) => pattern.is_match(path),
            None => true,
        }
    }

    /// Tells whether an entry that the search sees is a result.
    pub fn selects(&self, entry: &DirectoryEntry) -> (selected: bool)
        ensures
            selected == self@.selects(entry@),
    {
        self.passes_filters(entry) && self.matches(entry.path.as_str())
    }

    /// Tells whether the search lists an entry that it sees at `level`.
    pub fn descends(&self, entry: &DirectoryEntry, level: usize) -> (listed: bool)
        ensures
            listed == self@.descends(entry@, level as nat),
    {
        match entry.kind {
            EntryKind::Directory => match self.max_depth {
                Some(limit) => (level as u64) < (limit as u64),
                None => true,
            },
            _ => false,
        }
    }
}

} // verus!
