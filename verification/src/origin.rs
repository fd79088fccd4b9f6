//! Where results come from. A place is a way into a tree: the number of a
//! node in a listing, then the number of a node in that node's listing, and
//! so on. The functions here pair the results of a search with the places of
//! the nodes that it reports, one place for each result and one result for
//! each place, and the places in the order of the results.

use crate::report::Findings;
use crate::request::RequestView;
use crate::tree::{
    found_among, found_at, found_in_entry, found_in_roots, found_under, listing_of_root,
    search_findings, NodeView, TreeView,
};
use vstd::prelude::*;

verus! {

/// Whether `place` leads to a node of the listing `nodes`: its first number
/// picks a node of the listing, the next a node of that node's listing, and
/// so on; every node on the way but the last has a listing that was read.
pub open spec fn leads_to_node(nodes: Seq<NodeView>, place: Seq<int>) -> bool
    decreases place.len(),
{
    &&& place.len() > 0
    &&& 0 <= place[0] < nodes.len()
    &&& place.len() > 1 ==> match nodes[place[0]].listing {
        Some(below) => leads_to_node(below, place.skip(1)),
        None => false,
    }
}

/// The node that `place` leads to.
pub open spec fn node_at(nodes: Seq<NodeView>, place: Seq<int>) -> NodeView
    decreases place.len(),
{
    if place.len() <= 1 {
        nodes[place[0]]
    } else {
        match nodes[place[0]].listing {
            Some(below) => node_at(below, place.skip(1)),
            None => nodes[place[0]],
        }
    }
}

/// Whether the search comes to the node at `place` when it goes through
/// `nodes` at `level`: it sees every node on the way, and every node on the
/// way but the last is a directory that it lists.
pub open spec fn reaches(
    request: RequestView,
    nodes: Seq<NodeView>,
    place: Seq<int>,
    level: nat,
) -> bool
    decreases place.len(),
{
    &&& place.len() > 0
    &&& 0 <= place[0] < nodes.len()
    &&& request.sees(nodes[place[0]].entry)
    &&& place.len() > 1 ==> {
        &&& request.descends(nodes[place[0]].entry, level)
        &&& match nodes[place[0]].listing {
            Some(below) => reaches(request, below, place.skip(1), level + 1),
            None => false,
        }
    }
}

/// Whether the search comes to the node at `place` and reports it.
pub open spec fn reports(
    request: RequestView,
    nodes: Seq<NodeView>,
    place: Seq<int>,
    level: nat,
) -> bool {
    reaches(request, nodes, place, level) && request.selects(node_at(nodes, place).entry)
}

/// Whether `first` comes before `second` in pre-order: a node comes before
/// what lies below it, and a node of a listing, with all that lies below
/// it, before the nodes that follow it in the listing.
pub open spec fn comes_before(first: Seq<int>, second: Seq<int>) -> bool
    decreases first.len(),
{
    if second.len() == 0 {
        false
    } else if first.len() == 0 {
        true
    } else if first[0] != second[0] {
        first[0] < second[0]
    } else {
        comes_before(first.skip(1), second.skip(1))
    }
}

/// A node that the search comes to is a node of the tree.
pub proof fn reached_nodes_exist(request: RequestView, nodes: Seq<NodeView>, place: Seq<int>, level: nat)
    requires
        reaches(request, nodes, place, level),
    ensures
        leads_to_node(nodes, place),
    decreases place.len(),
{
    if place.len() > 1 {
        match nodes[place[0]].listing {
            Some(below) => {
                reached_nodes_exist(request, below, place.skip(1), level + 1);
            },
            None => {},
        }
    }
}

/// The search sees every node on the way to a node that it comes to.
pub proof fn reached_nodes_are_seen(
    request: RequestView,
    nodes: Seq<NodeView>,
    place: Seq<int>,
    level: nat,
    steps: int,
)
    requires
        reaches(request, nodes, place, level),
        1 <= steps <= place.len(),
    ensures
        request.sees(node_at(nodes, place.take(steps)).entry),
    decreases place.len(),
{
    if steps > 1 {
        match nodes[place[0]].listing {
            Some(below) => {
                reached_nodes_are_seen(request, below, place.skip(1), level + 1, steps - 1);
                assert(place.take(steps).skip(1) =~= place.skip(1).take(steps - 1));
            },
            None => {},
        }
    }
}

/// Under a depth limit the search comes to no node below the limit.
pub proof fn reached_nodes_are_within_depth(
    request: RequestView,
    nodes: Seq<NodeView>,
    place: Seq<int>,
    level: nat,
    limit: nat,
)
    requires
        reaches(request, nodes, place, level),
        request.max_depth == Some(limit),
        level <= limit,
    ensures
        level + place.len() - 1 <= limit,
    decreases place.len(),
{
    if place.len() > 1 {
        match nodes[place[0]].listing {
            Some(below) => {
                reached_nodes_are_within_depth(request, below, place.skip(1), level + 1, limit);
            },
            None => {},
        }
    }
}

/// The node that `below` leads to from `node`: the empty way stands for
/// `node` itself.
pub open spec fn node_below(node: NodeView, below: Seq<int>) -> NodeView {
    if below.len() == 0 {
        node
    } else {
        match node.listing {
            Some(nodes) => node_at(nodes, below),
            None => node,
        }
    }
}

/// Whether the search, when it comes to `node` at `level`, goes on to the
/// node that `below` leads to and reports it.
pub open spec fn reports_below(
    request: RequestView,
    node: NodeView,
    level: nat,
    below: Seq<int>,
) -> bool {
    &&& request.sees(node.entry)
    &&& if below.len() == 0 {
        request.selects(node.entry)
    } else {
        &&& request.descends(node.entry, level)
        &&& match node.listing {
            Some(nodes) => reports(request, nodes, below, level + 1),
            None => false,
        }
    }
}

/// The way from `node` to the node whose path is the match at `index` among
/// those found at `node`.
pub open spec fn place_below(request: RequestView, node: NodeView, level: nat, index: int) -> Seq<
    int,
>
    decreases node, 0nat,
{
    let own = found_in_entry(request, node.entry).matches.len();
    if index < own {
        Seq::empty()
    } else {
        match node.listing {
            Some(nodes) => place_among(request, nodes, 0, level + 1, index - own),
            None => Seq::empty(),
        }
    }
}

/// The place of the node whose path is the match at `index` among those
/// found in a listing from `from` on.
pub open spec fn place_among(
    request: RequestView,
    nodes: Seq<NodeView>,
    from: nat,
    level: nat,
    index: int,
) -> Seq<int>
    decreases nodes, nodes.len() - from,
{
    if from >= nodes.len() {
        Seq::empty()
    } else {
        let here = found_at(request, nodes[from as int], level).matches.len();
        if index < here {
            seq![from as int] + place_below(request, nodes[from as int], level, index)
        } else {
            place_among(request, nodes, from + 1, level, index - here)
        }
    }
}

/// Where, among the matches found at `node`, the path of the node stands
/// that `below` leads to.
pub open spec fn index_below(request: RequestView, node: NodeView, level: nat, below: Seq<int>) -> int
    decreases node, 0nat,
{
    if below.len() == 0 {
        0
    } else {
        found_in_entry(request, node.entry).matches.len() + match node.listing {
            Some(nodes) => index_among(request, nodes, 0, level + 1, below),
            None => 0,
        }
    }
}

/// Where, among the matches found in a listing from `from` on, the path of
/// the node at `place` stands.
pub open spec fn index_among(
    request: RequestView,
    nodes: Seq<NodeView>,
    from: nat,
    level: nat,
    place: Seq<int>,
) -> int
    decreases nodes, nodes.len() - from,
{
    if from >= nodes.len() || place.len() == 0 {
        0
    } else if place[0] == from {
        index_below(request, nodes[from as int], level, place.skip(1))
    } else {
        found_at(request, nodes[from as int], level).matches.len() + index_among(
            request,
            nodes,
            from + 1,
            level,
            place,
        )
    }
}

proof fn place_below_is_right(request: RequestView, node: NodeView, level: nat, index: int)
    requires
        0 <= index < found_at(request, node, level).matches.len(),
    ensures
        reports_below(request, node, level, place_below(request, node, level, index)),
        node_below(node, place_below(request, node, level, index)).entry.path == found_at(
            request,
            node,
            level,
        ).matches[index],
        index_below(request, node, level, place_below(request, node, level, index)) == index,
    decreases node, 0nat,
{
    let own = found_in_entry(request, node.entry).matches.len();
    if index >= own {
        match node.listing {
            Some(nodes) => {
                place_among_is_right(request, nodes, 0, level + 1, index - own);
            },
            None => {},
        }
    }
}

/// Every match found in a listing is the path of a node that the search
/// comes to there and reports, and it stands where the path of that node
/// is due.
pub proof fn place_among_is_right(
    request: RequestView,
    nodes: Seq<NodeView>,
    from: nat,
    level: nat,
    index: int,
)
    requires
        0 <= index < found_among(request, nodes, from, level).matches.len(),
    ensures
        reports(request, nodes, place_among(request, nodes, from, level, index), level),
        place_among(request, nodes, from, level, index)[0] >= from,
        node_at(nodes, place_among(request, nodes, from, level, index)).entry.path == found_among(
            request,
            nodes,
            from,
            level,
        ).matches[index],
        index_among(request, nodes, from, level, place_among(request, nodes, from, level, index))
            == index,
    decreases nodes, nodes.len() - from,
{
    let node = nodes[from as int];
    let here = found_at(request, node, level).matches.len();
    let place = place_among(request, nodes, from, level, index);
    if index < here {
        place_below_is_right(request, node, level, index);
        assert(place.skip(1) =~= place_below(request, node, level, index));
    } else {
        place_among_is_right(request, nodes, from + 1, level, index - here);
    }
}

proof fn index_below_is_right(request: RequestView, node: NodeView, level: nat, below: Seq<int>)
    requires
        reports_below(request, node, level, below),
    ensures
        0 <= index_below(request, node, level, below) < found_at(
            request,
            node,
            level,
        ).matches.len(),
        found_at(request, node, level).matches[index_below(request, node, level, below)]
            == node_below(node, below).entry.path,
        place_below(request, node, level, index_below(request, node, level, below)) == below,
    decreases node, 0nat,
{
    if below.len() == 0 {
        assert(place_below(request, node, level, 0) =~= below);
    } else {
        match node.listing {
            Some(nodes) => {
                index_among_is_right(request, nodes, 0, level + 1, below);
            },
            None => {},
        }
    }
}

/// Every node of a listing that the search comes to and reports has its
/// path among the matches, at the place that is due to it.
pub proof fn index_among_is_right(
    request: RequestView,
    nodes: Seq<NodeView>,
    from: nat,
    level: nat,
    place: Seq<int>,
)
    requires
        reports(request, nodes, place, level),
        place[0] >= from,
    ensures
        0 <= index_among(request, nodes, from, level, place) < found_among(
            request,
            nodes,
            from,
            level,
        ).matches.len(),
        found_among(request, nodes, from, level).matches[index_among(
            request,
            nodes,
            from,
            level,
            place,
        )] == node_at(nodes, place).entry.path,
        place_among(request, nodes, from, level, index_among(request, nodes, from, level, place))
            == place,
    decreases nodes, nodes.len() - from,
{
    let node = nodes[from as int];
    if place[0] == from {
        index_below_is_right(request, node, level, place.skip(1));
        assert(seq![from as int] + place.skip(1) =~= place);
    } else {
        index_among_is_right(request, nodes, from + 1, level, place);
    }
}

proof fn order_below(
    request: RequestView,
    node: NodeView,
    level: nat,
    first: Seq<int>,
    second: Seq<int>,
)
    requires
        reports_below(request, node, level, first),
        reports_below(request, node, level, second),
        comes_before(first, second),
    ensures
        index_below(request, node, level, first) < index_below(request, node, level, second),
    decreases node, 0nat,
{
    match node.listing {
        Some(nodes) => {
            if first.len() == 0 {
                index_among_is_right(request, nodes, 0, level + 1, second);
            } else {
                order_among(request, nodes, 0, level + 1, first, second);
            }
        },
        None => {},
    }
}

/// The matches found in a listing stand in the order of the nodes that they
/// come from: a node before what lies below it, and before the nodes after
/// it in the listing.
pub proof fn order_among(
    request: RequestView,
    nodes: Seq<NodeView>,
    from: nat,
    level: nat,
    first: Seq<int>,
    second: Seq<int>,
)
    requires
        reports(request, nodes, first, level),
        reports(request, nodes, second, level),
        first[0] >= from,
        second[0] >= from,
        comes_before(first, second),
    ensures
        index_among(request, nodes, from, level, first) < index_among(
            request,
            nodes,
            from,
            level,
            second,
        ),
    decreases nodes, nodes.len() - from,
{
    let node = nodes[from as int];
    if first[0] == from && second[0] == from {
        order_below(request, node, level, first.skip(1), second.skip(1));
    } else if first[0] == from {
        index_below_is_right(request, node, level, first.skip(1));
        index_among_is_right(request, nodes, from + 1, level, second);
    } else {
        order_among(request, nodes, from + 1, level, first, second);
    }
}

/// Where a result comes from: a root of the request and a place in the
/// tree that the snapshot holds for it.
pub struct Origin {
    /// The place of the root among the roots of the request.
    pub root: int,
    /// The way from the root's listing to the node.
    pub place: Seq<int>,
}

/// The nodes that the snapshot lists under a root of the request.
pub open spec fn nodes_under(request: RequestView, snapshot: Seq<TreeView>, root: int) -> Seq<
    NodeView,
> {
    match listing_of_root(snapshot, request.roots[root]) {
        Some(nodes) => nodes,
        None => Seq::empty(),
    }
}

/// The nodes that the snapshot lists under the root of an origin.
pub open spec fn root_nodes(request: RequestView, snapshot: Seq<TreeView>, origin: Origin) -> Seq<
    NodeView,
> {
    nodes_under(request, snapshot, origin.root)
}

/// Whether `origin` is a node of the snapshot that the search comes to and
/// reports.
pub open spec fn is_origin(request: RequestView, snapshot: Seq<TreeView>, origin: Origin) -> bool {
    &&& 0 <= origin.root < request.roots.len()
    &&& reports(request, root_nodes(request, snapshot, origin), origin.place, 0)
}

/// The node of an origin.
pub open spec fn origin_node(request: RequestView, snapshot: Seq<TreeView>, origin: Origin) -> NodeView {
    node_at(root_nodes(request, snapshot, origin), origin.place)
}

/// Whether the search comes to `first` before it comes to `second`: under
/// an earlier root, or under the same root at an earlier place.
pub open spec fn origin_before(first: Origin, second: Origin) -> bool {
    first.root < second.root || (first.root == second.root && comes_before(
        first.place,
        second.place,
    ))
}

/// What the search finds under one root of the request.
pub open spec fn found_under_root(request: RequestView, snapshot: Seq<TreeView>, root: int) -> Findings {
    found_under(
        request,
        request.roots[root],
        listing_of_root(snapshot, request.roots[root]),
        0,
    )
}

/// The origin of the match at `index` among those found under the roots
/// from `from` on.
pub open spec fn origin_from(
    request: RequestView,
    snapshot: Seq<TreeView>,
    from: nat,
    index: int,
) -> Origin
    decreases request.roots.len() - from,
{
    if from >= request.roots.len() {
        Origin { root: from as int, place: Seq::empty() }
    } else {
        let here = found_under_root(request, snapshot, from as int).matches.len();
        if index < here {
            Origin {
                root: from as int,
                place: place_among(request, nodes_under(request, snapshot, from as int), 0, 0, index),
            }
        } else {
            origin_from(request, snapshot, from + 1, index - here)
        }
    }
}

/// Where, among the matches found under the roots from `from` on, the path
/// of an origin stands.
pub open spec fn position_from(
    request: RequestView,
    snapshot: Seq<TreeView>,
    from: nat,
    origin: Origin,
) -> int
    decreases request.roots.len() - from,
{
    if from >= request.roots.len() {
        0
    } else if origin.root == from {
        index_among(request, nodes_under(request, snapshot, from as int), 0, 0, origin.place)
    } else {
        found_under_root(request, snapshot, from as int).matches.len() + position_from(
            request,
            snapshot,
            from + 1,
            origin,
        )
    }
}

/// The origin of the match at `index` of a search.
pub open spec fn origin_of(request: RequestView, snapshot: Seq<TreeView>, index: int) -> Origin {
    origin_from(request, snapshot, 0, index)
}

/// Where the path of an origin stands among the matches of a search.
pub open spec fn position_of(request: RequestView, snapshot: Seq<TreeView>, origin: Origin) -> int {
    position_from(request, snapshot, 0, origin)
}

proof fn origin_from_is_right(request: RequestView, snapshot: Seq<TreeView>, from: nat, index: int)
    requires
        0 <= index < found_in_roots(request, snapshot, from).matches.len(),
    ensures
        is_origin(request, snapshot, origin_from(request, snapshot, from, index)),
        origin_from(request, snapshot, from, index).root >= from,
        origin_node(request, snapshot, origin_from(request, snapshot, from, index)).entry.path
            == found_in_roots(request, snapshot, from).matches[index],
        position_from(request, snapshot, from, origin_from(request, snapshot, from, index))
            == index,
    decreases request.roots.len() - from,
{
    let here = found_under_root(request, snapshot, from as int).matches.len();
    if index < here {
        place_among_is_right(request, nodes_under(request, snapshot, from as int), 0, 0, index);
    } else {
        origin_from_is_right(request, snapshot, from + 1, index - here);
    }
}

proof fn position_from_is_right(
    request: RequestView,
    snapshot: Seq<TreeView>,
    from: nat,
    origin: Origin,
)
    requires
        is_origin(request, snapshot, origin),
        origin.root >= from,
    ensures
        0 <= position_from(request, snapshot, from, origin) < found_in_roots(
            request,
            snapshot,
            from,
        ).matches.len(),
        found_in_roots(request, snapshot, from).matches[position_from(
            request,
            snapshot,
            from,
            origin,
        )] == origin_node(request, snapshot, origin).entry.path,
        origin_from(request, snapshot, from, position_from(request, snapshot, from, origin))
            == origin,
    decreases request.roots.len() - from,
{
    if origin.root == from {
        index_among_is_right(request, root_nodes(request, snapshot, origin), 0, 0, origin.place);
    } else {
        position_from_is_right(request, snapshot, from + 1, origin);
    }
}

proof fn order_from(
    request: RequestView,
    snapshot: Seq<TreeView>,
    from: nat,
    first: Origin,
    second: Origin,
)
    requires
        is_origin(request, snapshot, first),
        is_origin(request, snapshot, second),
        first.root >= from,
        origin_before(first, second),
    ensures
        position_from(request, snapshot, from, first) < position_from(
            request,
            snapshot,
            from,
            second,
        ),
    decreases request.roots.len() - from,
{
    if first.root == from && second.root == from {
        order_among(
            request,
            nodes_under(request, snapshot, from as int),
            0,
            0,
            first.place,
            second.place,
        );
    } else if first.root == from {
        index_among_is_right(request, root_nodes(request, snapshot, first), 0, 0, first.place);
        position_from_is_right(request, snapshot, from + 1, second);
    } else {
        order_from(request, snapshot, from + 1, first, second);
    }
}

/// Every match of a search has its origin: a node of the snapshot that the
/// search comes to and reports, whose path the match is, and to which that
/// place among the matches is due.
pub proof fn every_match_has_its_origin(request: RequestView, snapshot: Seq<TreeView>, index: int)
    requires
        0 <= index < search_findings(request, snapshot).matches.len(),
    ensures
        is_origin(request, snapshot, origin_of(request, snapshot, index)),
        origin_node(request, snapshot, origin_of(request, snapshot, index)).entry.path
            == search_findings(request, snapshot).matches[index],
        position_of(request, snapshot, origin_of(request, snapshot, index)) == index,
{
    origin_from_is_right(request, snapshot, 0, index);
}

/// Every node of the snapshot that the search comes to and reports has its
/// match: its path stands among the matches, at the place that is due to
/// it, and it is the origin of that match. With the law before, each result
/// stands for one node and each node for one result.
pub proof fn every_origin_has_its_match(request: RequestView, snapshot: Seq<TreeView>, origin: Origin)
    requires
        is_origin(request, snapshot, origin),
    ensures
        0 <= position_of(request, snapshot, origin) < search_findings(
            request,
            snapshot,
        ).matches.len(),
        search_findings(request, snapshot).matches[position_of(request, snapshot, origin)]
            == origin_node(request, snapshot, origin).entry.path,
        origin_of(request, snapshot, position_of(request, snapshot, origin)) == origin,
{
    position_from_is_right(request, snapshot, 0, origin);
}

/// The results of a search come in pre-order: root by root in the order of
/// the request, and under a root a directory before what lies below it, and
/// an entry of a listing, with all below it, before the entries after it.
pub proof fn matches_come_in_pre_order(
    request: RequestView,
    snapshot: Seq<TreeView>,
    first: Origin,
    second: Origin,
)
    requires
        is_origin(request, snapshot, first),
        is_origin(request, snapshot, second),
        origin_before(first, second),
    ensures
        position_of(request, snapshot, first) < position_of(request, snapshot, second),
{
    order_from(request, snapshot, 0, first, second);
}

} // verus!
