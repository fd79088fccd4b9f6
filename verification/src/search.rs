//! The search run to its end on a snapshot held in memory: the walker asks,
//! the snapshot answers. The proof that goes with the loop shows that a
//! walker whose questions are answered from a tree finds exactly what
//! `search_findings` says is to be found in that tree.

use crate::entry::{entry_views, DirectoryEntry};
use crate::report::{Findings, SearchReport};
use crate::request::{RequestView, SearchRequest};
use crate::tree::{
    entries_of, found_among, found_at, found_in_roots, found_under, listing_of_root, node_views,
    search_findings, tree_views, Listing, Node, NodeView, Tree, TreeView,
};
use crate::walker::{VisitView, WalkState, Walker};
use vstd::prelude::*;

verus! {

/// The lists of nodes behind the open listings of a search: one list for
/// each open listing, holding the same entries in the same order.
spec fn follows(state: WalkState, behind: Seq<Seq<NodeView>>) -> bool {
    &&& behind.len() == state.frames.len()
    &&& forall|k: int|
        0 <= k < state.frames.len() ==> (#[trigger] state.frames[k]).entries == entries_of(
            behind[k],
        )
}

/// The listing that the snapshot holds for the directory that the search
/// waits for.
spec fn awaited_listing(
    snapshot: Seq<TreeView>,
    behind: Seq<Seq<NodeView>>,
    visit: VisitView,
) -> Option<Seq<NodeView>> {
    if visit.depth == 0 {
        listing_of_root(snapshot, visit.path)
    } else {
        behind[visit.depth - 1][visit.slot as int].listing
    }
}

/// Whether the directory that the search waits for is one that `behind` holds.
spec fn well_aimed(state: WalkState, behind: Seq<Seq<NodeView>>, visit: VisitView) -> bool {
    &&& visit.depth == state.frames.len()
    &&& visit.depth > 0 ==> visit.slot < behind[visit.depth - 1].len()
}

/// What is still to be found below the directory that the search waits for.
spec fn awaited_findings(
    request: RequestView,
    snapshot: Seq<TreeView>,
    state: WalkState,
    behind: Seq<Seq<NodeView>>,
) -> Findings {
    match state.awaiting {
        Some(visit) => found_under(
            request,
            visit.path,
            awaited_listing(snapshot, behind, visit),
            visit.depth,
        ),
        None => Findings::nothing(),
    }
}

/// What is still to be found in the outermost `count` open listings, the
/// innermost of them first.
spec fn open_findings(
    request: RequestView,
    state: WalkState,
    behind: Seq<Seq<NodeView>>,
    count: nat,
) -> Findings
    decreases count,
{
    if count == 0 {
        Findings::nothing()
    } else {
        found_among(
            request,
            behind[count - 1],
            state.frames[count - 1].cursor,
            (count - 1) as nat,
        ).followed_by(open_findings(request, state, behind, (count - 1) as nat))
    }
}

/// What the search will have found when it ends: what it has found, what
/// lies below the directory that it waits for, what is left of the open
/// listings, and what lies under the roots that it has not begun.
spec fn outlook(
    request: RequestView,
    snapshot: Seq<TreeView>,
    state: WalkState,
    behind: Seq<Seq<NodeView>>,
) -> Findings {
    state.findings.followed_by(awaited_findings(request, snapshot, state, behind)).followed_by(
        open_findings(request, state, behind, state.frames.len()),
    ).followed_by(found_in_roots(request, snapshot, state.roots_started))
}

/// The number of nodes at and below a node.
spec fn weight_at(node: NodeView) -> nat
    decreases node, 0nat,
{
    1 + weight_under(node.listing)
}

/// The number of nodes in a listing and below.
spec fn weight_under(listing: Option<Seq<NodeView>>) -> nat
    decreases listing, 0nat,
{
    match listing {
        None => 0,
        Some(nodes) => weight_among(nodes, 0),
    }
}

/// The number of nodes at and below the nodes of a list from `from` on.
spec fn weight_among(nodes: Seq<NodeView>, from: nat) -> nat
    decreases nodes, nodes.len() - from,
{
    if from >= nodes.len() {
        0
    } else {
        weight_at(nodes[from as int]) + weight_among(nodes, from + 1)
    }
}

/// The number of nodes left in the outermost `count` open listings.
spec fn open_weight(state: WalkState, behind: Seq<Seq<NodeView>>, count: nat) -> nat
    decreases count,
{
    if count == 0 {
        0
    } else {
        weight_among(behind[count - 1], state.frames[count - 1].cursor) + open_weight(
            state,
            behind,
            (count - 1) as nat,
        )
    }
}

/// The number of roots from `from` on, and of nodes under them.
spec fn roots_weight(request: RequestView, snapshot: Seq<TreeView>, from: nat) -> nat
    decreases request.roots.len() - from,
{
    if from >= request.roots.len() {
        0
    } else {
        1 + weight_under(listing_of_root(snapshot, request.roots[from as int])) + roots_weight(
            request,
            snapshot,
            from + 1,
        )
    }
}

/// A bound on the work that is left: the number of roots and nodes that the
/// search may still come to.
spec fn effort(
    request: RequestView,
    snapshot: Seq<TreeView>,
    state: WalkState,
    behind: Seq<Seq<NodeView>>,
) -> nat {
    (match state.awaiting {
        Some(visit) => weight_under(awaited_listing(snapshot, behind, visit)),
        None => 0,
    }) + open_weight(state, behind, state.frames.len()) + roots_weight(
        request,
        snapshot,
        state.roots_started,
    )
}

/// What is left of the outermost open listings depends on those listings alone.
proof fn open_listings_agree(
    request: RequestView,
    state: WalkState,
    behind: Seq<Seq<NodeView>>,
    other: WalkState,
    other_behind: Seq<Seq<NodeView>>,
    count: nat,
)
    requires
        count <= state.frames.len(),
        count <= other.frames.len(),
        count <= behind.len(),
        count <= other_behind.len(),
        forall|k: int|
            #![trigger state.frames[k]]
            #![trigger behind[k]]
            0 <= k < count ==> state.frames[k] == other.frames[k] && behind[k] == other_behind[k],
    ensures
        open_findings(request, state, behind, count) == open_findings(
            request,
            other,
            other_behind,
            count,
        ),
        open_weight(state, behind, count) == open_weight(other, other_behind, count),
    decreases count,
{
    if count > 0 {
        open_listings_agree(request, state, behind, other, other_behind, (count - 1) as nat);
    }
}

/// Leaving a listing that the search is done with changes nothing of what
/// it will have found, nor of the work that is left.
proof fn leaving_keeps_outlook(
    request: RequestView,
    snapshot: Seq<TreeView>,
    state: WalkState,
    behind: Seq<Seq<NodeView>>,
)
    requires
        state.awaiting is None,
        follows(state, behind),
        state.frames.len() > 0,
        state.top_is_done(),
    ensures
        follows(state.without_top(), behind.drop_last()),
        outlook(request, snapshot, state.without_top(), behind.drop_last()) == outlook(
            request,
            snapshot,
            state,
            behind,
        ),
        effort(request, snapshot, state.without_top(), behind.drop_last()) == effort(
            request,
            snapshot,
            state,
            behind,
        ),
{
    let depth = state.frames.len();
    let popped = state.without_top();
    let fewer = behind.drop_last();
    open_listings_agree(request, state, behind, popped, fewer, (depth - 1) as nat);
    assert(open_findings(request, state, behind, depth) =~= open_findings(
        request,
        popped,
        fewer,
        (depth - 1) as nat,
    ));
    assert(outlook(request, snapshot, popped, fewer) =~= outlook(request, snapshot, state, behind));
}

/// Dealing with one entry changes nothing of what the search will have
/// found in the end, and uses up work.
proof fn entry_keeps_outlook(
    request: RequestView,
    snapshot: Seq<TreeView>,
    state: WalkState,
    behind: Seq<Seq<NodeView>>,
)
    requires
        state.awaiting is None,
        follows(state, behind),
        state.frames.len() > 0,
        !state.top_is_done(),
    ensures
        follows(state.after_entry(request), behind),
        outlook(request, snapshot, state.after_entry(request), behind) == outlook(
            request,
            snapshot,
            state,
            behind,
        ),
        effort(request, snapshot, state.after_entry(request), behind) < effort(
            request,
            snapshot,
            state,
            behind,
        ),
        state.after_entry(request).awaiting is Some ==> well_aimed(
            state.after_entry(request),
            behind,
            state.after_entry(request).awaiting.unwrap(),
        ),
{
    let depth = state.frames.len();
    let level = (depth - 1) as nat;
    let frame = state.frames.last();
    let node = behind[depth - 1][frame.cursor as int];
    let entry = state.next_entry();
    let next = state.after_entry(request);
    assert(entry == node.entry);
    open_listings_agree(request, state, behind, next, behind, (depth - 1) as nat);
    let lower = open_findings(request, state, behind, (depth - 1) as nat);
    let rest = found_among(request, behind[depth - 1], frame.cursor + 1, level);
    assert(open_findings(request, state, behind, depth) == found_at(
        request,
        node,
        level,
    ).followed_by(rest).followed_by(lower));
    assert(open_findings(request, next, behind, depth) == rest.followed_by(lower));
    assert(open_weight(state, behind, depth) == weight_at(node) + open_weight(
        next,
        behind,
        depth,
    ));
    assert(outlook(request, snapshot, next, behind) =~= outlook(request, snapshot, state, behind));
}

/// Going on to the next question changes neither what the search will have
/// found in the end nor the listings behind it, and uses up work whenever
/// it ends in a question.
proof fn settling_keeps_outlook(
    request: RequestView,
    snapshot: Seq<TreeView>,
    state: WalkState,
    behind: Seq<Seq<NodeView>>,
)
    requires
        state.awaiting is None,
        follows(state, behind),
    ensures
        ({
            let after = state.settle(request);
            let kept = behind.take(after.frames.len() as int);
            &&& after.frames.len() <= state.frames.len()
            &&& follows(after, kept)
            &&& outlook(request, snapshot, after, kept) == outlook(request, snapshot, state, behind)
            &&& effort(request, snapshot, after, kept) <= effort(request, snapshot, state, behind)
            &&& match after.awaiting {
                Some(visit) => {
                    &&& well_aimed(after, kept, visit)
                    &&& effort(request, snapshot, after, kept) < effort(
                        request,
                        snapshot,
                        state,
                        behind,
                    )
                },
                None => after.finished(request),
            }
        }),
    decreases state.frames.len(), state.left_on_top(),
{
    let depth = state.frames.len();
    let after = state.settle(request);
    if depth == 0 {
        assert(behind.take(0) =~= behind);
        if state.roots_started < request.roots.len() {
            assert(outlook(request, snapshot, after, behind) =~= outlook(
                request,
                snapshot,
                state,
                behind,
            ));
        }
    } else if state.top_is_done() {
        leaving_keeps_outlook(request, snapshot, state, behind);
        settling_keeps_outlook(request, snapshot, state.without_top(), behind.drop_last());
        assert(behind.drop_last().take(after.frames.len() as int) =~= behind.take(
            after.frames.len() as int,
        ));
    } else {
        entry_keeps_outlook(request, snapshot, state, behind);
        let next = state.after_entry(request);
        if next.awaiting is Some {
            assert(next.settle(request) == next);
            assert(behind.take(depth as int) =~= behind);
        } else {
            settling_keeps_outlook(request, snapshot, next, behind);
        }
    }
}

/// An answer taken from the snapshot changes neither what the search will
/// have found in the end nor the work that is left.
proof fn answering_keeps_outlook(
    request: RequestView,
    snapshot: Seq<TreeView>,
    state: WalkState,
    behind: Seq<Seq<NodeView>>,
)
    requires
        state.awaiting is Some,
        follows(state, behind),
        well_aimed(state, behind, state.awaiting.unwrap()),
    ensures
        match awaited_listing(snapshot, behind, state.awaiting.unwrap()) {
            None => {
                let after = state.accept(None);
                &&& follows(after, behind)
                &&& outlook(request, snapshot, after, behind) == outlook(
                    request,
                    snapshot,
                    state,
                    behind,
                )
                &&& effort(request, snapshot, after, behind) == effort(
                    request,
                    snapshot,
                    state,
                    behind,
                )
            },
            Some(nodes) => {
                let after = state.accept(Some(entries_of(nodes)));
                let longer = behind.push(nodes);
                &&& follows(after, longer)
                &&& outlook(request, snapshot, after, longer) == outlook(
                    request,
                    snapshot,
                    state,
                    behind,
                )
                &&& effort(request, snapshot, after, longer) == effort(
                    request,
                    snapshot,
                    state,
                    behind,
                )
            },
        },
{
    let depth = state.frames.len();
    match awaited_listing(snapshot, behind, state.awaiting.unwrap()) {
        None => {
            let after = state.accept(None);
            open_listings_agree(request, state, behind, after, behind, depth);
            assert(outlook(request, snapshot, after, behind) =~= outlook(
                request,
                snapshot,
                state,
                behind,
            ));
        },
        Some(nodes) => {
            let after = state.accept(Some(entries_of(nodes)));
            let longer = behind.push(nodes);
            open_listings_agree(request, state, behind, after, longer, depth);
            assert(outlook(request, snapshot, after, longer) =~= outlook(
                request,
                snapshot,
                state,
                behind,
            ));
        },
    }
}

/// The node lists that a trail of borrowed listings stands for.
spec fn lists_of(trail: Seq<&Vec<Node>>) -> Seq<Seq<NodeView>> {
    Seq::new(trail.len(), |k: int| node_views(trail[k]@))
}

/// The entries of a listing, without what lies below them.
pub fn entries_in(nodes: &Vec<Node>) -> (entries: Vec<DirectoryEntry>)
    ensures
        entry_views(entries@) == entries_of(node_views(nodes@)),
{
    let mut entries: Vec<DirectoryEntry> = Vec::new();
    let mut at: usize = 0;
    while at < nodes.len()
        invariant
            at <= nodes.len(),
            entries@.len() == at,
            forall|k: int| 0 <= k < at ==> entries@[k]@ == nodes@[k].entry@,
        decreases nodes.len() - at,
    {
        entries.push(nodes[at].entry.clone());
        at = at + 1;
    }
    assert(entry_views(entries@) =~= entries_of(node_views(nodes@)));
    entries
}

/// Looks up the listing that the snapshot holds for a root.
pub fn listing_for<'a>(snapshot: &'a Vec<Tree>, root: &String) -> (found: Option<&'a Listing>)
    ensures
        match found {
            Some(listing) => listing@ == listing_of_root(tree_views(snapshot@), root@),
            None => listing_of_root(tree_views(snapshot@), root@) is None,
        },
{
    let ghost trees = tree_views(snapshot@);
    let mut at: usize = 0;
    assert(trees.skip(0) =~= trees);
    while at < snapshot.len()
        invariant
            at <= snapshot.len(),
            trees == tree_views(snapshot@),
            listing_of_root(trees, root@) == listing_of_root(trees.skip(at as int), root@),
        decreases snapshot.len() - at,
    {
        assert(trees.skip(at as int)[0] == snapshot@[at as int]@);
        if snapshot[at].root == *root {
            return Some(&snapshot[at].listing);
        }
        assert(trees.skip(at as int).skip(1) =~= trees.skip(at + 1));
        at = at + 1;
    }
    None
}

/// Searches a snapshot: runs the walker to its end, answering each of its
/// questions with the listing that the snapshot holds.
pub fn search(request: SearchRequest, snapshot: &Vec<Tree>) -> (report: SearchReport)
    ensures
        report@ == search_findings(request@, tree_views(snapshot@)),
{
    let ghost wanted = request@;
    let ghost trees = tree_views(snapshot@);
    let mut walker = Walker::new(request);
    let mut trail: Vec<&Vec<Node>> = Vec::new();
    assert(lists_of(trail@) =~= Seq::empty());
    assert(outlook(wanted, trees, walker@, lists_of(trail@)) =~= search_findings(wanted, trees));
    loop
        invariant_except_break
            walker@.awaiting is None,
            follows(walker@, lists_of(trail@)),
            outlook(wanted, trees, walker@, lists_of(trail@)) == search_findings(wanted, trees),
        invariant
            walker.request() == wanted,
            trees == tree_views(snapshot@),
        ensures
            walker@.findings == search_findings(wanted, trees),
        decreases effort(wanted, trees, walker@, lists_of(trail@)),
    {
        let ghost state = walker@;
        let ghost behind = lists_of(trail@);
        let next = walker.next_directory();
        proof {
            settling_keeps_outlook(wanted, trees, state, behind);
        }
        match next {
            None => {
                assert(outlook(wanted, trees, walker@, behind.take(0)) =~= walker@.findings);
                break ;
            },
            Some(visit) => {
                trail.truncate(visit.depth);
                let ghost kept = lists_of(trail@);
                assert(kept =~= behind.take(visit.depth as int));
                proof {
                    answering_keeps_outlook(wanted, trees, walker@, kept);
                }
                let answer: Option<&Listing> = if visit.depth == 0 {
                    listing_for(snapshot, &visit.path)
                } else {
                    Some(&trail[visit.depth - 1][visit.slot].listing)
                };
                match answer {
                    Some(Listing::Entries(nodes)) => {
                        walker.supply(Some(entries_in(nodes)));
                        trail.push(nodes);
                        assert(lists_of(trail@) =~= kept.push(node_views(nodes@)));
                    },
                    _ => {
                        walker.supply(None);
                    },
                }
            },
        }
    }
    walker.into_report()
}

} // verus!
