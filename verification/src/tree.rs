//! Directory trees as values, and what a walk of one yields.
//!
//! A [`Tree`] says what a search in a directory finds, and below each record
//! what a search in that record's path would find. [`walk`] is the list of
//! results that a walk of such a tree comes to.

use crate::entry::{
    build, entries_well_formed, lemma_build_well_formed, outcomes_of, DirEntry, Outcome,
};
use crate::error::{Error, ErrorModel};
use crate::record::{RawRecord, RecordModel};
use crate::walker::{budget_below, descends, Phase, Walker, WalkerModel};
use vstd::prelude::*;

verus! {

/// What a search in a directory finds.
pub enum Tree {
    /// Nothing: no search can be opened in it.
    Unreadable,
    /// These records, in this order. A search that is opened yields at
    /// least one record, so a listing without records is as good as
    /// unreadable.
    Listing(Seq<Node>),
}

/// One record of a listing, with what lies below it.
pub struct Node {
    pub record: RecordModel,
    /// What a search in the path of this record finds. It matters only
    /// where the record is a folder that a walk goes into.
    pub below: Tree,
}

/// The results of a walk that could not open its search: the one failure
/// `InvalidSearch`, with the path of the directory.
pub open spec fn unopened(path: Seq<u8>) -> Seq<Outcome> {
    seq![Err(ErrorModel::InvalidSearch(path))]
}

/// The results of walking `tree`, the directory `path`, with budget `depth`.
///
/// Where no search can be opened, the one result is `InvalidSearch` with the
/// path. Otherwise the results of the records follow one another in the
/// order of the listing.
pub open spec fn walk(tree: Tree, path: Seq<u8>, depth: nat) -> Seq<Outcome>
    decreases tree, 0nat,
{
    match tree {
        Tree::Unreadable => unopened(path),
        Tree::Listing(nodes) => if nodes.len() == 0 {
            unopened(path)
        } else {
            walk_listing(nodes, path, depth, nodes.len())
        },
    }
}

/// The results for the first `count` records of a listing.
pub open spec fn walk_listing(nodes: Seq<Node>, path: Seq<u8>, depth: nat, count: nat) -> Seq<
    Outcome,
>
    decreases nodes, count,
{
    if count == 0 || count > nodes.len() {
        Seq::empty()
    } else {
        walk_listing(nodes, path, depth, (count - 1) as nat) + walk_node(
            nodes[count - 1],
            path,
            depth,
        )
    }
}

/// The results for one record of the directory `path`.
///
/// A record that is no entry gives none, and one that fails to build gives
/// its error and no more. An entry gives itself; if it is a folder and the
/// budget lets the walk go into it, the results of walking the folder come
/// first.
pub open spec fn walk_node(node: Node, path: Seq<u8>, depth: nat) -> Seq<Outcome>
    decreases node, 0nat,
{
    match build(path, node.record) {
        None => Seq::empty(),
        Some(Err(error)) => seq![Err(error)],
        Some(Ok(entry)) => if entry.is_folder() && descends(depth) {
            walk(node.below, entry.path, budget_below(depth)).push(Ok(entry))
        } else {
            seq![Ok(entry)]
        },
    }
}

/// A directory tree that was recorded.
#[derive(Debug, PartialEq, Eq)]
pub enum Directory {
    /// No search can be opened in it.
    Unreadable,
    /// A search yields these records, in this order.
    Listing(Vec<Child>),
}

/// One record of a recorded directory, with what lies below it.
#[derive(Debug, PartialEq, Eq)]
pub struct Child {
    pub record: RawRecord,
    pub below: Directory,
}

/// What a recorded directory stands for.
pub open spec fn tree_of(directory: Directory) -> Tree
    decreases directory, 0nat,
{
    match directory {
        Directory::Unreadable => Tree::Unreadable,
        Directory::Listing(children) => Tree::Listing(nodes_of(children@, children@.len())),
    }
}

/// What the first `count` records of a recorded listing stand for.
pub open spec fn nodes_of(children: Seq<Child>, count: nat) -> Seq<Node>
    decreases children, count,
{
    if count == 0 || count > children.len() {
        Seq::empty()
    } else {
        nodes_of(children, (count - 1) as nat).push(node_of(children[count - 1]))
    }
}

/// What one recorded record stands for.
pub open spec fn node_of(child: Child) -> Node
    decreases child, 0nat,
{
    Node { record: child.record@, below: tree_of(child.below) }
}

impl View for Directory {
    type V = Tree;

    open spec fn view(&self) -> Tree {
        tree_of(*self)
    }
}

impl View for Child {
    type V = Node;

    open spec fn view(&self) -> Node {
        node_of(*self)
    }
}

/// A recorded listing stands for its records one by one.
pub proof fn lemma_nodes_of(children: Seq<Child>, count: nat)
    requires
        count <= children.len(),
    ensures
        nodes_of(children, count).len() == count,
        forall|i: int| 0 <= i < count ==> nodes_of(children, count)[i] == node_of(children[i]),
    decreases count,
{
    if count > 0 {
        lemma_nodes_of(children, (count - 1) as nat);
    }
}

/// Every entry among the results of a walk is well formed: none is named
/// `.` or `..`, a folder has no size, and a file has one.
pub proof fn lemma_walk_well_formed(tree: Tree, path: Seq<u8>, depth: nat)
    ensures
        entries_well_formed(walk(tree, path, depth)),
    decreases tree, 0nat,
{
    if let Tree::Listing(nodes) = tree {
        lemma_listing_well_formed(nodes, path, depth, nodes.len());
    }
}

proof fn lemma_listing_well_formed(nodes: Seq<Node>, path: Seq<u8>, depth: nat, count: nat)
    requires
        count <= nodes.len(),
    ensures
        entries_well_formed(walk_listing(nodes, path, depth, count)),
    decreases nodes, count,
{
    if count > 0 {
        let node = nodes[count - 1];
        lemma_listing_well_formed(nodes, path, depth, (count - 1) as nat);
        lemma_build_well_formed(path, node.record);
        if let Some(Ok(entry)) = build(path, node.record) {
            if entry.is_folder() && descends(depth) {
                lemma_walk_well_formed(node.below, entry.path, budget_below(depth));
            }
        }
        assert(entries_well_formed(walk_node(node, path, depth)));
    }
}

/// A walk of a directory in which no search can be opened has one result:
/// `InvalidSearch` with the path of that directory, whatever the budget.
/// The walker comes to the same when its first request is answered with
/// nothing, and is finished then.
pub proof fn lemma_unreadable_start(path: Seq<u8>, depth: nat)
    ensures
        walk(Tree::Unreadable, path, depth) == unopened(path),
        unopened(path).len() == 1,
        WalkerModel::start(path, depth).respond(None).finished(),
        WalkerModel::start(path, depth).respond(None).results == unopened(path),
{
    let first = WalkerModel::start(path, depth);
    assert(first.frames.last().path == path);
    assert(first.respond(None).results =~= unopened(path));
}

/// Answers a walker that asks to open a search with all that a search in
/// `directory` would bring, up to the closing of the search.
///
/// The walker ends up as if it had walked `directory` in place of the
/// directory it asked for: it has the results of that walk, and has left
/// the directory. A walker that asks for anything else is left as it is.
pub fn replay(walker: &mut Walker, directory: &Directory)
    ensures
        final(walker)@ == if old(walker)@.request() is Open {
            old(walker)@.conclude(
                walk(
                    directory@,
                    old(walker)@.frames.last().path,
                    old(walker)@.frames.last().depth,
                ),
            )
        } else {
            old(walker)@
        },
    decreases directory,
{
    if walker.finished() || walker.phase() != Phase::Opening {
        return ;
    }
    let ghost before = walker@;
    let ghost path = before.frames.last().path;
    let ghost depth = before.frames.last().depth;
    match directory {
        Directory::Unreadable => {
            walker.respond(None);
            assert(before.results + walk(directory@, path, depth) =~= before.results.push(
                Err(ErrorModel::InvalidSearch(path)),
            ));
        },
        Directory::Listing(children) => {
            if children.len() == 0 {
                walker.respond(None);
                assert(before.results + walk(directory@, path, depth) =~= before.results.push(
                    Err(ErrorModel::InvalidSearch(path)),
                ));
                return ;
            }
            let ghost nodes = nodes_of(children@, children@.len());
            proof {
                lemma_nodes_of(children@, children@.len());
            }
            let mut at: usize = 0;
            while at < children.len()
                invariant
                    at <= children@.len(),
                    children@.len() > 0,
                    *directory == Directory::Listing(*children),
                    nodes == nodes_of(children@, children@.len()),
                    nodes.len() == children@.len(),
                    forall|i: int| 0 <= i < nodes.len() ==> nodes[i] == node_of(children@[i]),
                    !before.finished(),
                    path == before.frames.last().path,
                    depth == before.frames.last().depth,
                    walker@.frames == before.frames,
                    walker@.results == before.results + walk_listing(nodes, path, depth, at as nat),
                    walker@.phase == if at == 0 {
                        Phase::Opening
                    } else {
                        Phase::Listing
                    },
                decreases children@.len() - at,
            {
                let ghost seen = walker@;
                let ghost so_far = walk_listing(nodes, path, depth, at as nat);
                let ghost node = nodes[at as int];
                let child = &children[at];
                assert(node.record == child.record@ && node.below == child.below@);
                walker.respond(Some(&child.record));
                assert(walker@ == seen.take(node.record));
                let ghost taken = walker@;
                proof {
                    assert(directory->Listing_0 == *children);
                    assert(decreases_to!(*directory => directory->Listing_0));
                    assert(decreases_to!(*children => children@));
                    assert(decreases_to!(children@ => children@[at as int]));
                    assert(decreases_to!(children@[at as int] => children@[at as int].below));
                }
                replay(walker, &child.below);
                at = at + 1;
                proof {
                    let next = walk_node(node, path, depth);
                    assert(walk_listing(nodes, path, depth, at as nat) == so_far + next);
                    match build(path, node.record) {
                        None => {
                            assert(so_far + next =~= so_far);
                        },
                        Some(Err(error)) => {
                            assert(before.results + (so_far + next) =~= (before.results
                                + so_far).push(Err(error)));
                        },
                        Some(Ok(entry)) => {
                            if entry.is_folder() && descends(depth) {
                                let inner = walk(node.below, entry.path, budget_below(depth));
                                assert(taken.frames.last().entry == Some(entry));
                                assert(taken.frames.drop_last() =~= before.frames);
                                assert(before.results + (so_far + next) =~= (before.results
                                    + so_far + inner).push(Ok(entry)));
                            } else {
                                assert(before.results + (so_far + next) =~= (before.results
                                    + so_far).push(Ok(entry)));
                            }
                        },
                    }
                }
            }
            walker.respond(None);
            walker.respond(None);
        },
    }
}

/// Walks a recorded directory tree: `root` is what a search in the
/// directory `path` finds.
///
/// A `depth` of zero sets no limit.
pub fn walkdir(root: &Directory, path: &[u8], depth: usize) -> (results: Vec<
    Result<DirEntry, Error>,
>)
    ensures
        outcomes_of(results@) == walk(root@, path@, depth as nat),
        entries_well_formed(outcomes_of(results@)),
{
    let mut walker = Walker::new(path, depth);
    replay(&mut walker, root);
    proof {
        assert(walker@.results =~= walk(root@, path@, depth as nat));
        lemma_walk_well_formed(root@, path@, depth as nat);
    }
    walker.into_results()
}

} // verus!
