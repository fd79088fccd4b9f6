//! What holds of every search, whatever the request and the tree: what a
//! result says of the node that it comes from, what the search asks of a
//! file system, and what an unreadable directory costs.

use crate::entry::{EntryKind, EntryView};
use crate::origin::{
    every_match_has_its_origin, is_origin, leads_to_node, node_at, origin_node, origin_of,
    reached_nodes_are_seen, reached_nodes_are_within_depth, reached_nodes_exist, root_nodes,
    Origin,
};
use crate::report::Findings;
use crate::request::RequestView;
use crate::tree::{found_among, found_at, found_in_entry, search_findings, NodeView, TreeView};
use crate::walker::{VisitView, WalkState};
use vstd::prelude::*;

verus! {

/// Every path that a search reports matches the pattern of the request, and
/// is the path of an entry of the snapshot that passes every filter: a file,
/// or else a directory where the request includes directories. A search for
/// files only reports nothing but files of the snapshot.
pub proof fn matches_satisfy_the_request(request: RequestView, snapshot: Seq<TreeView>, index: int)
    requires
        0 <= index < search_findings(request, snapshot).matches.len(),
    ensures
        request.matches(search_findings(request, snapshot).matches[index]),
        ({
            let origin = origin_of(request, snapshot, index);
            let entry = origin_node(request, snapshot, origin).entry;
            &&& is_origin(request, snapshot, origin)
            &&& leads_to_node(root_nodes(request, snapshot, origin), origin.place)
            &&& entry.path == search_findings(request, snapshot).matches[index]
            &&& request.passes_filters(entry)
            &&& entry.kind == EntryKind::File || (entry.kind == EntryKind::Directory
                && request.include_directories)
            &&& !request.include_directories ==> entry.kind == EntryKind::File
        }),
{
    let origin = origin_of(request, snapshot, index);
    every_match_has_its_origin(request, snapshot, index);
    reached_nodes_exist(request, root_nodes(request, snapshot, origin), origin.place, 0);
}

/// Whether no entry on the way to the node of an origin, the node included,
/// is hidden.
pub open spec fn way_is_in_plain_sight(request: RequestView, snapshot: Seq<TreeView>, origin: Origin) -> bool {
    forall|steps: int|
        1 <= steps <= origin.place.len() ==> !(#[trigger] node_at(
            root_nodes(request, snapshot, origin),
            origin.place.take(steps),
        )).entry.is_hidden()
}

/// With hidden entries out of sight, the search comes to no node that is
/// hidden or lies below a hidden entry.
pub proof fn hidden_nodes_are_no_origin(request: RequestView, snapshot: Seq<TreeView>, origin: Origin)
    requires
        !request.show_hidden,
        is_origin(request, snapshot, origin),
    ensures
        way_is_in_plain_sight(request, snapshot, origin),
{
    assert forall|steps: int| 1 <= steps <= origin.place.len() implies !(#[trigger] node_at(
        root_nodes(request, snapshot, origin),
        origin.place.take(steps),
    )).entry.is_hidden() by {
        reached_nodes_are_seen(
            request,
            root_nodes(request, snapshot, origin),
            origin.place,
            0,
            steps,
        );
    }
}

/// With hidden entries out of sight, neither a hidden entry nor anything
/// below one is among the results: every path that the search reports is
/// the path of a node of the snapshot such that no name on the way from the
/// root to the node, the node's own included, begins with a dot.
pub proof fn hidden_entries_stay_out(request: RequestView, snapshot: Seq<TreeView>, index: int)
    requires
        !request.show_hidden,
        0 <= index < search_findings(request, snapshot).matches.len(),
    ensures
        is_origin(request, snapshot, origin_of(request, snapshot, index)),
        origin_node(request, snapshot, origin_of(request, snapshot, index)).entry.path
            == search_findings(request, snapshot).matches[index],
        way_is_in_plain_sight(request, snapshot, origin_of(request, snapshot, index)),
{
    every_match_has_its_origin(request, snapshot, index);
    hidden_nodes_are_no_origin(request, snapshot, origin_of(request, snapshot, index));
}

/// With a depth limit, the search comes to no node that lies deeper below
/// its root than the limit allows. The entries of a root are at level 0,
/// and a node is at the level of the listing that holds it.
pub proof fn deep_nodes_are_no_origin(
    request: RequestView,
    snapshot: Seq<TreeView>,
    origin: Origin,
    limit: nat,
)
    requires
        request.max_depth == Some(limit),
        is_origin(request, snapshot, origin),
    ensures
        origin.place.len() - 1 <= limit,
{
    reached_nodes_are_within_depth(
        request,
        root_nodes(request, snapshot, origin),
        origin.place,
        0,
        limit,
    );
}

/// With a depth limit, no result lies deeper below its root than the limit
/// allows: every path that the search reports is the path of a node of the
/// snapshot at a level no greater than the limit.
pub proof fn matches_stay_within_depth(
    request: RequestView,
    snapshot: Seq<TreeView>,
    index: int,
    limit: nat,
)
    requires
        request.max_depth == Some(limit),
        0 <= index < search_findings(request, snapshot).matches.len(),
    ensures
        is_origin(request, snapshot, origin_of(request, snapshot, index)),
        origin_node(request, snapshot, origin_of(request, snapshot, index)).entry.path
            == search_findings(request, snapshot).matches[index],
        origin_of(request, snapshot, index).place.len() - 1 <= limit,
{
    every_match_has_its_origin(request, snapshot, index);
    deep_nodes_are_no_origin(request, snapshot, origin_of(request, snapshot, index), limit);
}

/// Whether a search in this state may ask for this directory: a root is asked
/// for in its turn; any other directory is an entry of the innermost open
/// listing that the search has just passed, that it sees, and that the
/// depth limit lets it enter.
pub open spec fn is_fair_question(request: RequestView, state: WalkState, visit: VisitView) -> bool {
    if visit.depth == 0 {
        &&& state.frames.len() == 0
        &&& visit.slot < request.roots.len()
        &&& state.roots_started == visit.slot + 1
        &&& visit.path == request.roots[visit.slot as int]
    } else {
        &&& state.frames.len() == visit.depth
        &&& visit.slot < state.frames.last().entries.len()
        &&& state.frames.last().cursor == visit.slot + 1
        &&& visit.path == asked_entry(state, visit).path
        &&& request.sees(asked_entry(state, visit))
        &&& request.descends(asked_entry(state, visit), (visit.depth - 1) as nat)
    }
}

/// The entry of an open listing that a question is about.
pub open spec fn asked_entry(state: WalkState, visit: VisitView) -> EntryView {
    state.frames.last().entries[visit.slot as int]
}

/// Whatever the file system holds, a search asks only for directories that
/// it may enter: for the roots of the request, and below them for entries
/// that it sees, that are directories, and that lie within the depth limit.
/// With hidden entries out of sight it never asks for a hidden directory,
/// and with a depth limit it never asks for a listing below the limit.
pub proof fn questions_are_fair(request: RequestView, state: WalkState)
    requires
        state.awaiting is None,
    ensures
        match state.settle(request).awaiting {
            Some(visit) => {
                &&& is_fair_question(request, state.settle(request), visit)
                &&& visit.depth > 0 && !request.show_hidden ==> !asked_entry(
                    state.settle(request),
                    visit,
                ).is_hidden()
                &&& request.max_depth is Some ==> visit.depth <= request.max_depth.unwrap()
            },
            None => state.settle(request).finished(request),
        },
    decreases state.frames.len(), state.left_on_top(),
{
    if state.frames.len() == 0 {
    } else if state.top_is_done() {
        questions_are_fair(request, state.without_top());
    } else {
        let next = state.after_entry(request);
        if next.awaiting is Some {
            assert(next.settle(request) == next);
        } else {
            questions_are_fair(request, next);
        }
    }
}

/// A search depends on the request and the tree alone: two searches for the
/// same request on the same snapshot find the same paths in the same order.
pub proof fn search_is_repeatable(
    request: RequestView,
    snapshot: Seq<TreeView>,
    first: Findings,
    second: Findings,
)
    requires
        first == search_findings(request, snapshot),
        second == search_findings(request, snapshot),
    ensures
        first == second,
        first.matches == second.matches,
{
}

/// What the search finds among the nodes of a listing from `from` on is
/// what it finds in the listing that begins there.
pub proof fn later_nodes_are_searched_alike(
    request: RequestView,
    nodes: Seq<NodeView>,
    from: nat,
    level: nat,
    at: nat,
)
    requires
        from <= nodes.len(),
    ensures
        found_among(request, nodes.skip(from as int), at, level) == found_among(
            request,
            nodes,
            from + at,
            level,
        ),
    decreases nodes.len() - from - at,
{
    if from + at < nodes.len() {
        later_nodes_are_searched_alike(request, nodes, from, level, at + 1);
    }
}

/// What the search finds among the first nodes of a listing does not depend
/// on the nodes after them.
pub proof fn earlier_nodes_are_searched_alike(
    request: RequestView,
    nodes: Seq<NodeView>,
    until: nat,
    level: nat,
    at: nat,
)
    requires
        until <= nodes.len(),
    ensures
        found_among(request, nodes.take(until as int), at, level).followed_by(
            found_among(request, nodes, if at <= until {
                until
            } else {
                at
            }, level),
        ) == found_among(request, nodes, at, level),
    decreases nodes.len() - at,
{
    if at < until {
        earlier_nodes_are_searched_alike(request, nodes, until, level, at + 1);
        assert(found_among(request, nodes.take(until as int), at, level).followed_by(
            found_among(request, nodes, until, level),
        ) =~= found_among(request, nodes, at, level));
    } else {
        assert(found_among(request, nodes.take(until as int), at, level).followed_by(
            found_among(request, nodes, at, level),
        ) =~= found_among(request, nodes, at, level));
    }
}

/// A directory that cannot be read costs the search nothing but what lies
/// below it: the search still finds what lies before it in the listing,
/// the directory itself if it is a result, and what lies after it, and it
/// notes the directory as a failure if it tried to list it.
pub proof fn unreadable_directory_spares_the_rest(
    request: RequestView,
    nodes: Seq<NodeView>,
    at: nat,
    level: nat,
)
    requires
        at < nodes.len(),
        nodes[at as int].listing is None,
    ensures
        found_among(request, nodes, 0, level) == found_among(
            request,
            nodes.take(at as int),
            0,
            level,
        ).followed_by(found_at(request, nodes[at as int], level)).followed_by(
            found_among(request, nodes.skip(at as int + 1), 0, level),
        ),
        found_at(request, nodes[at as int], level).matches == (if request.sees(
            nodes[at as int].entry,
        ) {
            found_in_entry(request, nodes[at as int].entry).matches
        } else {
            Seq::empty()
        }),
        found_at(request, nodes[at as int], level).failures == (if request.sees(
            nodes[at as int].entry,
        ) && request.descends(nodes[at as int].entry, level) {
            seq![nodes[at as int].entry.path]
        } else {
            Seq::empty()
        }),
{
    earlier_nodes_are_searched_alike(request, nodes, at, level, 0);
    later_nodes_are_searched_alike(request, nodes, at + 1, level, 0);
    assert(found_among(request, nodes, 0, level) =~= found_among(
        request,
        nodes.take(at as int),
        0,
        level,
    ).followed_by(found_at(request, nodes[at as int], level)).followed_by(
        found_among(request, nodes.skip(at as int + 1), 0, level),
    ));
    let node = nodes[at as int];
    if request.sees(node.entry) {
        assert(found_at(request, node, level).matches =~= found_in_entry(request, node.entry).matches);
        if request.descends(node.entry, level) {
            assert(found_at(request, node, level).failures =~= seq![node.entry.path]);
        } else {
            assert(found_at(request, node, level).failures =~= Seq::empty());
        }
    }
}

} // verus!
