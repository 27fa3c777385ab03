//! What the depth budget means for the results of a walk.

use crate::entry::{build, Outcome};
use crate::tree::{walk, walk_listing, walk_node, Node, Tree};
use crate::walker::{budget_below, descends};
use vstd::prelude::*;

verus! {

/// Whether two trees are the same down to `levels` levels: the same
/// records in the same order on each of these levels, and a search can be
/// opened in the one wherever it can in the other. What lies deeper is left
/// open. The records of the directory itself are level one.
pub open spec fn same_to(a: Tree, b: Tree, levels: nat) -> bool
    decreases levels,
{
    levels == 0 || match (a, b) {
        (Tree::Unreadable, Tree::Unreadable) => true,
        (Tree::Listing(xs), Tree::Listing(ys)) => {
            &&& xs.len() == ys.len()
            &&& forall|i: int|
                0 <= i < xs.len() ==> (#[trigger] xs[i]).record == ys[i].record && same_to(
                    xs[i].below,
                    ys[i].below,
                    (levels - 1) as nat,
                )
        },
        _ => false,
    }
}

/// The number of levels that a walk without limit has results from.
///
/// A search that cannot be opened is itself a result, on the level of the
/// records it would have brought. So a tree that is unreadable reaches one
/// level, and a folder that is unreadable reaches one level further than
/// the listing it stands in.
pub open spec fn reach(tree: Tree) -> nat
    decreases tree, 0nat,
{
    match tree {
        Tree::Unreadable => 1,
        Tree::Listing(nodes) => if nodes.len() == 0 {
            1
        } else {
            reach_listing(nodes, nodes.len())
        },
    }
}

/// The reach of the first `count` records of a listing: that of the one
/// that reaches furthest.
pub open spec fn reach_listing(nodes: Seq<Node>, count: nat) -> nat
    decreases nodes, count,
{
    if count == 0 || count > nodes.len() {
        0
    } else {
        let before = reach_listing(nodes, (count - 1) as nat);
        let last = reach_node(nodes[count - 1]);
        if before >= last {
            before
        } else {
            last
        }
    }
}

/// The reach of one record: none if it is no entry, one level if it is a
/// file or fails to build, and one level more than what lies below it if it
/// is a folder.
pub open spec fn reach_node(node: Node) -> nat
    decreases node, 0nat,
{
    if node.record.is_self_or_parent() {
        0
    } else if node.record.has_dates() && node.record.is_folder() {
        1 + reach(node.below)
    } else {
        1
    }
}

/// A walk with budget `depth` has nothing from deeper than `depth` levels
/// below the directory it starts in: two trees that are the same down to
/// that level give the same results, whatever lies deeper in them.
pub proof fn lemma_walk_stops_at_depth(a: Tree, b: Tree, path: Seq<u8>, depth: nat)
    requires
        depth >= 1,
        same_to(a, b, depth),
    ensures
        walk(a, path, depth) == walk(b, path, depth),
    decreases a, 0nat,
{
    if let Tree::Listing(xs) = a {
        let ys = b->Listing_0;
        lemma_listing_stops_at_depth(xs, ys, path, depth, xs.len());
    }
}

proof fn lemma_listing_stops_at_depth(
    xs: Seq<Node>,
    ys: Seq<Node>,
    path: Seq<u8>,
    depth: nat,
    count: nat,
)
    requires
        depth >= 1,
        same_to(Tree::Listing(xs), Tree::Listing(ys), depth),
        count <= xs.len(),
    ensures
        walk_listing(xs, path, depth, count) == walk_listing(ys, path, depth, count),
    decreases xs, count,
{
    if count > 0 {
        lemma_listing_stops_at_depth(xs, ys, path, depth, (count - 1) as nat);
        let x = xs[count - 1];
        let y = ys[count - 1];
        assert(x.record == y.record);
        assert(same_to(x.below, y.below, (depth - 1) as nat));
        assert(walk_listing(xs, path, depth, count) == walk_listing(
            xs,
            path,
            depth,
            (count - 1) as nat,
        ) + walk_node(x, path, depth));
        assert(walk_listing(ys, path, depth, count) == walk_listing(
            ys,
            path,
            depth,
            (count - 1) as nat,
        ) + walk_node(y, path, depth));
        if let Some(Ok(entry)) = build(path, x.record) {
            if entry.is_folder() && descends(depth) {
                lemma_walk_stops_at_depth(x.below, y.below, entry.path, budget_below(depth));
            }
        }
    }
}

/// A tree without reach has no results.
pub proof fn lemma_no_reach_no_results(tree: Tree, path: Seq<u8>, depth: nat)
    requires
        reach(tree) == 0,
    ensures
        walk(tree, path, depth) == Seq::<Outcome>::empty(),
{
    if let Tree::Listing(nodes) = tree {
        lemma_listing_without_reach(nodes, path, depth, nodes.len());
    }
}

proof fn lemma_listing_without_reach(nodes: Seq<Node>, path: Seq<u8>, depth: nat, count: nat)
    requires
        reach_listing(nodes, count) == 0,
        count <= nodes.len(),
    ensures
        walk_listing(nodes, path, depth, count) == Seq::<Outcome>::empty(),
    decreases count,
{
    if count > 0 {
        lemma_listing_without_reach(nodes, path, depth, (count - 1) as nat);
        assert(reach_node(nodes[count - 1]) == 0);
        assert(walk_node(nodes[count - 1], path, depth) =~= Seq::<Outcome>::empty());
    }
}

/// A budget that covers the reach of a tree is as good as none: the walk
/// with budget `depth` gives what the walk without limit gives.
pub proof fn lemma_budget_beyond_reach(tree: Tree, path: Seq<u8>, depth: nat)
    requires
        reach(tree) <= depth,
    ensures
        walk(tree, path, depth) == walk(tree, path, 0),
    decreases tree, 0nat,
{
    if let Tree::Listing(nodes) = tree {
        if nodes.len() > 0 {
            lemma_listing_beyond_reach(nodes, path, depth, nodes.len());
        }
    }
}

proof fn lemma_listing_beyond_reach(nodes: Seq<Node>, path: Seq<u8>, depth: nat, count: nat)
    requires
        reach_listing(nodes, count) <= depth,
        count <= nodes.len(),
    ensures
        walk_listing(nodes, path, depth, count) == walk_listing(nodes, path, 0, count),
    decreases nodes, count,
{
    if count > 0 {
        lemma_listing_beyond_reach(nodes, path, depth, (count - 1) as nat);
        let node = nodes[count - 1];
        assert(reach_listing(nodes, (count - 1) as nat) <= depth);
        assert(reach_node(node) <= depth);
        if let Some(Ok(entry)) = build(path, node.record) {
            if entry.is_folder() {
                assert(reach_node(node) == 1 + reach(node.below));
                if descends(depth) {
                    lemma_budget_beyond_reach(node.below, entry.path, budget_below(depth));
                } else {
                    lemma_no_reach_no_results(node.below, entry.path, 0);
                }
            }
        }
        assert(walk_node(node, path, depth) =~= walk_node(node, path, 0));
    }
}

} // verus!
