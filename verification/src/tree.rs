//! Directory trees held in memory, and what a search finds in them. The
//! functions here say what a search reports; they are the measure for the
//! code that walks a tree.

use crate::entry::{DirectoryEntry, EntryView};
use crate::report::Findings;
use crate::request::RequestView;
use vstd::prelude::*;

verus! {

/// What listing a directory gave.
#[derive(Debug, PartialEq, Eq)]
pub enum Listing {
    /// The directory could not be opened or read.
    Unreadable,
    /// The entries of the directory, in the order in which they were read,
    /// each with what lies below it.
    Entries(Vec<Node>),
}

/// An entry together with what lies below it. `listing` counts for
/// directories only.
#[derive(Debug, PartialEq, Eq)]
pub struct Node {
    pub entry: DirectoryEntry,
    pub listing: Listing,
}

/// The tree below one search root.
#[derive(Debug, PartialEq, Eq)]
pub struct Tree {
    /// The path of the root, as a request names it.
    pub root: String,
    pub listing: Listing,
}

/// The mathematical content of a [`Node`]: an entry and, where its listing
/// was read, the nodes of that listing.
pub struct NodeView {
    pub entry: EntryView,
    /// The nodes below; `None` where the listing could not be read.
    pub listing: Option<Seq<NodeView>>,
}

/// The mathematical content of a [`Tree`].
pub struct TreeView {
    pub root: Seq<char>,
    /// The nodes under the root; `None` where the root could not be read.
    pub listing: Option<Seq<NodeView>>,
}

/// The content of a node.
pub open spec fn node_view(node: Node) -> NodeView
    decreases node, 0nat,
{
    NodeView { entry: node.entry@, listing: listing_view(node.listing) }
}

/// The content of a listing.
pub open spec fn listing_view(listing: Listing) -> Option<Seq<NodeView>>
    decreases listing, 0nat,
{
    match listing {
        Listing::Unreadable => None,
        Listing::Entries(nodes) => Some(node_views(nodes@)),
    }
}

/// The contents of the nodes of a list.
pub open spec fn node_views(nodes: Seq<Node>) -> Seq<NodeView>
    decreases nodes, 1nat,
{
    Seq::new(
        nodes.len(),
        |i: int|
            if 0 <= i < nodes.len() {
                node_view(nodes[i])
            } else {
                arbitrary()
            },
    )
}

/// The contents of the trees of a snapshot.
pub open spec fn tree_views(trees: Seq<Tree>) -> Seq<TreeView> {
    Seq::new(trees.len(), |i: int| trees[i]@)
}

impl View for Listing {
    type V = Option<Seq<NodeView>>;

    open spec fn view(&self) -> Option<Seq<NodeView>> {
        listing_view(*self)
    }
}

impl View for Node {
    type V = NodeView;

    open spec fn view(&self) -> NodeView {
        node_view(*self)
    }
}

impl View for Tree {
    type V = TreeView;

    open spec fn view(&self) -> TreeView {
        TreeView { root: self.root@, listing: self.listing@ }
    }
}

/// The entries of a listing without what lies below them.
pub open spec fn entries_of(nodes: Seq<NodeView>) -> Seq<EntryView> {
    Seq::new(nodes.len(), |i: int| nodes[i].entry)
}

/// What the search finds in an entry that it sees, leaving aside what lies
/// below it: its path if it is a result.
pub open spec fn found_in_entry(request: RequestView, entry: EntryView) -> Findings {
    if request.selects(entry) {
        Findings::one_match(entry.path)
    } else {
        Findings::nothing()
    }
}

/// What the search finds among the nodes of a listing at `level`, from
/// the node at `from` on: what it finds at that node, then what it finds
/// among the nodes after it.
pub open spec fn found_among(
    request: RequestView,
    nodes: Seq<NodeView>,
    from: nat,
    level: nat,
) -> Findings
    decreases nodes, nodes.len() - from,
{
    if from >= nodes.len() {
        Findings::nothing()
    } else {
        found_at(request, nodes[from as int], level).followed_by(
            found_among(request, nodes, from + 1, level),
        )
    }
}

/// What the search finds at one node at `level`: nothing if it does not see
/// the entry; else the entry itself if it is a result, and after that, if
/// the search lists it, what it finds below.
pub open spec fn found_at(request: RequestView, node: NodeView, level: nat) -> Findings
    decreases node, 0nat,
{
    if !request.sees(node.entry) {
        Findings::nothing()
    } else if request.descends(node.entry, level) {
        found_in_entry(request, node.entry).followed_by(
            found_under(request, node.entry.path, node.listing, level + 1),
        )
    } else {
        found_in_entry(request, node.entry)
    }
}

/// What the search finds when it lists the directory at `path` and gets
/// `listing`, whose entries are at `level`: a failure if the directory is
/// unreadable, else what it finds among the entries.
pub open spec fn found_under(
    request: RequestView,
    path: Seq<char>,
    listing: Option<Seq<NodeView>>,
    level: nat,
) -> Findings
    decreases listing, 0nat,
{
    match listing {
        None => Findings::one_failure(path),
        Some(nodes) => found_among(request, nodes, 0, level),
    }
}

/// The listing that a snapshot holds for a root: that of the first tree
/// with that root. A root that the snapshot does not hold is unreadable.
pub open spec fn listing_of_root(snapshot: Seq<TreeView>, root: Seq<char>) -> Option<Seq<NodeView>>
    decreases snapshot.len(),
{
    if snapshot.len() == 0 {
        None
    } else if snapshot[0].root == root {
        snapshot[0].listing
    } else {
        listing_of_root(snapshot.skip(1), root)
    }
}

/// What the search finds under the roots of the request from the root at
/// `from` on, each root's findings after those of the roots before it.
pub open spec fn found_in_roots(request: RequestView, snapshot: Seq<TreeView>, from: nat) -> Findings
    decreases request.roots.len() - from,
{
    if from >= request.roots.len() {
        Findings::nothing()
    } else {
        found_under(
            request,
            request.roots[from as int],
            listing_of_root(snapshot, request.roots[from as int]),
            0,
        ).followed_by(found_in_roots(request, snapshot, from + 1))
    }
}

/// What a search for `request` finds in `snapshot`: for each root in turn,
/// the results in pre-order, a directory before what lies below it.
pub open spec fn search_findings(request: RequestView, snapshot: Seq<TreeView>) -> Findings {
    found_in_roots(request, snapshot, 0)
}

} // verus!
