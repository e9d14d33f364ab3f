//! What holds of a walk from its start to its end, against a model of the
//! directory tree that is walked.

use crate::errors::{ErrorKind, Failure};
use crate::filelib::tree::{
    after_event, failed, settle, DirEventView, Entry, EntryKind, WalkStage, WalkView,
};
use vstd::prelude::*;

verus! {

/// What stands at a path of a directory tree.
pub enum DirNode {
    /// A regular file.
    File { path: String },
    /// A directory with its entries, in the order they are enumerated in.
    Dir { path: String, entries: Seq<DirNode> },
    /// An entry that is listed as a directory and is gone when it is to be
    /// listed itself.
    MissingDir { path: String },
    /// A directory that cannot be read.
    UnreadableDir { path: String },
    /// An entry of the directory at `path` that cannot be read.
    UnreadableEntry { path: String },
    /// An entry whose type cannot be read.
    Untyped { path: String },
    /// An entry that is neither a regular file nor a directory.
    Other { path: String },
}

/// The regular files under a node, in order, or the first failure. The
/// entries of a directory are taken in order, and a directory is gone into
/// where it stands among them. Anything but a regular file or a readable
/// directory is a failure.
pub open spec fn walk(node: DirNode) -> Result<Seq<String>, Failure>
    decreases node, 0nat,
{
    match node {
        DirNode::File { path } => Ok(seq![path]),
        DirNode::Dir { path, entries } => walk_all(entries),
        DirNode::MissingDir { path } => Err(Failure { kind: ErrorKind::DirNotFound, path }),
        DirNode::UnreadableDir { path } => Err(
            Failure { kind: ErrorKind::CanNotGetDirData, path },
        ),
        DirNode::UnreadableEntry { path } => Err(
            Failure { kind: ErrorKind::CanNotGetDirData, path },
        ),
        DirNode::Untyped { path } => Err(
            Failure { kind: ErrorKind::CanNotGetFileOrDirType, path },
        ),
        DirNode::Other { path } => Err(Failure { kind: ErrorKind::DirUnsupported, path }),
    }
}

/// The walks of the nodes one after another, up to the first failure.
pub open spec fn walk_all(nodes: Seq<DirNode>) -> Result<Seq<String>, Failure>
    decreases nodes, 1nat,
{
    if nodes.len() == 0 {
        Ok(Seq::empty())
    } else {
        proof {
            broadcast use vstd::seq::axiom_seq_index_decreases;
            broadcast use vstd::seq::axiom_seq_subrange_decreases;

        }
        match walk(nodes.first()) {
            Err(failure) => Err(failure),
            Ok(found) => match walk_all(nodes.drop_first()) {
                Err(failure) => Err(failure),
                Ok(rest) => Ok(found + rest),
            },
        }
    }
}

/// The path of a node.
pub open spec fn path_of(node: DirNode) -> String {
    match node {
        DirNode::File { path } => path,
        DirNode::Dir { path, entries } => path,
        DirNode::MissingDir { path } => path,
        DirNode::UnreadableDir { path } => path,
        DirNode::UnreadableEntry { path } => path,
        DirNode::Untyped { path } => path,
        DirNode::Other { path } => path,
    }
}

/// What the listing of its directory shows of a node. A listing does not
/// tell a directory that can be read from one that cannot.
pub open spec fn listed_as(node: DirNode) -> Entry {
    Entry {
        path: path_of(node),
        kind: match node {
            DirNode::File { .. } => EntryKind::File,
            DirNode::Dir { .. } => EntryKind::Dir,
            DirNode::MissingDir { .. } => EntryKind::Dir,
            DirNode::UnreadableDir { .. } => EntryKind::Dir,
            DirNode::UnreadableEntry { .. } => EntryKind::Unreadable,
            DirNode::Untyped { .. } => EntryKind::Untyped,
            DirNode::Other { .. } => EntryKind::Other,
        },
    }
}

/// The listing of a directory with these nodes for entries.
pub open spec fn listing_of(nodes: Seq<DirNode>) -> Seq<Entry> {
    Seq::new(nodes.len(), |i: int| listed_as(nodes[i]))
}

/// The number of nodes of a tree.
pub open spec fn weight(node: DirNode) -> nat
    decreases node, 0nat,
{
    match node {
        DirNode::Dir { path, entries } => 1 + weight_all(entries),
        _ => 1,
    }
}

/// The number of nodes of several trees.
pub open spec fn weight_all(nodes: Seq<DirNode>) -> nat
    decreases nodes, 1nat,
{
    if nodes.len() == 0 {
        0
    } else {
        proof {
            broadcast use vstd::seq::axiom_seq_index_decreases;
            broadcast use vstd::seq::axiom_seq_subrange_decreases;

        }
        weight(nodes.first()) + weight_all(nodes.drop_first())
    }
}

/// What a caller reports while the nodes are pending, when it reads the
/// tree as it is: for every directory that the walk comes to, in the order
/// it comes to them, the directory's listing, or that it is missing or
/// unreadable. After a failure nothing more is reported.
pub open spec fn replies(pending: Seq<DirNode>) -> Seq<DirEventView>
    decreases weight_all(pending),
    via replies_decreases
{
    if pending.len() == 0 {
        Seq::empty()
    } else {
        match pending.first() {
            DirNode::File { path } => replies(pending.drop_first()),
            DirNode::Dir { path, entries } => seq![
                DirEventView::Listed { entries: listing_of(entries) },
            ] + replies(entries + pending.drop_first()),
            DirNode::MissingDir { path } => seq![DirEventView::Missing],
            DirNode::UnreadableDir { path } => seq![DirEventView::Unreadable],
            _ => Seq::empty(),
        }
    }
}

#[via_fn]
proof fn replies_decreases(pending: Seq<DirNode>) {
    if pending.len() > 0 {
        lemma_weight_of_first(pending);
    }
}

/// The stage that a run of events leads to.
pub open spec fn run(walk: WalkView, events: Seq<DirEventView>) -> WalkView
    decreases events.len(),
{
    if events.len() == 0 {
        walk
    } else {
        run(after_event(walk, events.first()), events.drop_first())
    }
}

/// Taking the first of several trees off leaves fewer nodes; going into a
/// directory that stands first leaves fewer nodes as well.
pub proof fn lemma_weight_of_first(nodes: Seq<DirNode>)
    requires
        nodes.len() > 0,
    ensures
        weight_all(nodes.drop_first()) < weight_all(nodes),
        nodes.first() matches DirNode::Dir { path, entries } ==> weight_all(
            entries + nodes.drop_first(),
        ) < weight_all(nodes),
{
    let node = nodes.first();
    let rest = nodes.drop_first();
    assert(weight_all(nodes) == weight(node) + weight_all(rest));
    match node {
        DirNode::Dir { path, entries } => {
            lemma_weight_concat(entries, rest);
            assert(weight(node) == 1 + weight_all(entries));
        },
        _ => {
            assert(weight(node) == 1);
        },
    }
}

/// The nodes of trees laid side by side are counted together.
pub proof fn lemma_weight_concat(front: Seq<DirNode>, back: Seq<DirNode>)
    ensures
        weight_all(front + back) == weight_all(front) + weight_all(back),
    decreases front.len(),
{
    if front.len() == 0 {
        assert(front + back =~= back);
    } else {
        assert((front + back).first() == front.first());
        assert((front + back).drop_first() =~= front.drop_first() + back);
        lemma_weight_concat(front.drop_first(), back);
    }
}

/// Trees laid side by side are walked one after the other.
pub proof fn lemma_walk_concat(front: Seq<DirNode>, back: Seq<DirNode>)
    ensures
        walk_all(front + back) == match walk_all(front) {
            Err(failure) => Err::<Seq<String>, Failure>(failure),
            Ok(found) => match walk_all(back) {
                Err(failure) => Err::<Seq<String>, Failure>(failure),
                Ok(rest) => Ok::<Seq<String>, Failure>(found + rest),
            },
        },
    decreases front.len(),
{
    if front.len() == 0 {
        assert(front + back =~= back);
        if let Ok(rest) = walk_all(back) {
            assert(Seq::<String>::empty() + rest =~= rest);
        }
    } else {
        assert((front + back).first() == front.first());
        assert((front + back).drop_first() =~= front.drop_first() + back);
        lemma_walk_concat(front.drop_first(), back);
        if let Ok(head) = walk(front.first()) {
            if let Ok(found) = walk_all(front.drop_first()) {
                if let Ok(rest) = walk_all(back) {
                    assert(head + (found + rest) =~= (head + found) + rest);
                }
            }
        }
    }
}

/// The walk at its end: done, with the files found added to those that
/// were collected before; or failed, with nothing collected.
pub open spec fn ended(files: Seq<String>, found: Result<Seq<String>, Failure>) -> WalkView {
    match found {
        Ok(found) => WalkView { stage: WalkStage::Done, files: files + found, pending: Seq::empty() },
        Err(failure) => failed(failure.kind, failure.path),
    }
}

/// A walk whose caller reads the tree as it is collects what the tree
/// holds: with the nodes pending and nothing awaited, the reports of the
/// caller lead to the end of the walk, with the regular files of the nodes
/// added to those collected before, in order; or to the first failure that
/// the tree holds, with nothing collected.
pub proof fn lemma_run_is_walk(files: Seq<String>, pending: Seq<DirNode>)
    ensures
        run(settle(files, listing_of(pending)), replies(pending)) == ended(files, walk_all(pending)),
    decreases weight_all(pending),
{
    let listing = listing_of(pending);
    let start = settle(files, listing);
    let events = replies(pending);
    let goal = ended(files, walk_all(pending));
    if pending.len() == 0 {
        assert(files + Seq::<String>::empty() =~= files);
        assert(listing =~= Seq::<Entry>::empty());
        assert(run(start, events) == goal);
    } else {
        let node = pending.first();
        let rest = pending.drop_first();
        lemma_weight_of_first(pending);
        assert(listing.first() == listed_as(node));
        assert(listing.drop_first() =~= listing_of(rest));
        assert(walk_all(pending) == match walk(node) {
            Err(failure) => Err::<Seq<String>, Failure>(failure),
            Ok(found) => match walk_all(rest) {
                Err(failure) => Err::<Seq<String>, Failure>(failure),
                Ok(more) => Ok::<Seq<String>, Failure>(found + more),
            },
        });
        match node {
            DirNode::File { path } => {
                assert(walk(node) == Ok::<Seq<String>, Failure>(seq![path]));
                lemma_run_is_walk(files.push(path), rest);
                assert(start == settle(files.push(path), listing_of(rest)));
                assert(events == replies(rest));
                if let Ok(found) = walk_all(rest) {
                    assert(files.push(path) + found =~= files + (seq![path] + found));
                }
                assert(run(start, events) == goal);
            },
            DirNode::Dir { path, entries } => {
                let inner = entries + rest;
                assert(walk(node) == walk_all(entries));
                lemma_walk_concat(entries, rest);
                lemma_run_is_walk(files, inner);
                assert(listing_of(inner) =~= listing_of(entries) + listing_of(rest));
                assert(start == (WalkView {
                    stage: WalkStage::Awaiting { path },
                    files,
                    pending: listing_of(rest),
                }));
                assert(events.first() == (DirEventView::Listed { entries: listing_of(entries) }));
                assert(events.drop_first() =~= replies(inner));
                assert(after_event(start, events.first()) == settle(files, listing_of(inner)));
                assert(run(start, events) == run(settle(files, listing_of(inner)), replies(inner)));
                assert(run(start, events) == goal);
            },
            DirNode::MissingDir { path } => {
                assert(walk(node) == Err::<Seq<String>, Failure>(
                    Failure { kind: ErrorKind::DirNotFound, path },
                ));
                assert(events.drop_first() =~= Seq::<DirEventView>::empty());
                assert(run(start, events) == after_event(start, events.first())) by {
                    assert(run(after_event(start, events.first()), events.drop_first())
                        == after_event(start, events.first()));
                }
                assert(run(start, events) == goal);
            },
            DirNode::UnreadableDir { path } => {
                assert(walk(node) == Err::<Seq<String>, Failure>(
                    Failure { kind: ErrorKind::CanNotGetDirData, path },
                ));
                assert(events.drop_first() =~= Seq::<DirEventView>::empty());
                assert(run(start, events) == after_event(start, events.first())) by {
                    assert(run(after_event(start, events.first()), events.drop_first())
                        == after_event(start, events.first()));
                }
                assert(run(start, events) == goal);
            },
            DirNode::UnreadableEntry { path } => {
                assert(walk(node) == Err::<Seq<String>, Failure>(
                    Failure { kind: ErrorKind::CanNotGetDirData, path },
                ));
                assert(start == failed(ErrorKind::CanNotGetDirData, path));
                assert(run(start, events) == goal);
            },
            DirNode::Untyped { path } => {
                assert(walk(node) == Err::<Seq<String>, Failure>(
                    Failure { kind: ErrorKind::CanNotGetFileOrDirType, path },
                ));
                assert(start == failed(ErrorKind::CanNotGetFileOrDirType, path));
                assert(run(start, events) == goal);
            },
            DirNode::Other { path } => {
                assert(walk(node) == Err::<Seq<String>, Failure>(
                    Failure { kind: ErrorKind::DirUnsupported, path },
                ));
                assert(start == failed(ErrorKind::DirUnsupported, path));
                assert(run(start, events) == goal);
            },
        }
    }
}

/// The walk of a tree from its root: a caller that reads the tree as it is
/// is led to the end of the walk with the regular files of the tree
/// collected, in order, or to the first failure that the tree holds.
pub proof fn lemma_walk_from_root(root: DirNode)
    requires
        root is Dir || root is MissingDir || root is UnreadableDir,
    ensures
        run(
            WalkView {
                stage: WalkStage::Awaiting { path: path_of(root) },
                files: Seq::empty(),
                pending: Seq::empty(),
            },
            replies(seq![root]),
        ) == ended(Seq::empty(), walk(root)),
{
    let alone = seq![root];
    let nothing = Seq::<String>::empty();
    let listing = listing_of(alone);
    lemma_run_is_walk(nothing, alone);
    assert(alone.first() == root);
    assert(alone.drop_first() =~= Seq::<DirNode>::empty());
    assert(listing.first() == listed_as(root));
    assert(listing.drop_first() =~= Seq::<Entry>::empty());
    assert(settle(nothing, listing) == (WalkView {
        stage: WalkStage::Awaiting { path: path_of(root) },
        files: nothing,
        pending: Seq::empty(),
    }));
    assert(walk_all(alone) == match walk(root) {
        Err(failure) => Err::<Seq<String>, Failure>(failure),
        Ok(found) => match walk_all(alone.drop_first()) {
            Err(failure) => Err::<Seq<String>, Failure>(failure),
            Ok(more) => Ok::<Seq<String>, Failure>(found + more),
        },
    });
    if let Ok(found) = walk(root) {
        assert(found + Seq::<String>::empty() =~= found);
        assert(nothing + found =~= found);
        assert(walk_all(alone) == Ok::<Seq<String>, Failure>(found));
    }
}

/// Whether `file` is a regular file of the tree under the node.
pub open spec fn has_file(node: DirNode, file: String) -> bool
    decreases node, 0nat,
{
    match node {
        DirNode::File { path } => path == file,
        DirNode::Dir { path, entries } => any_has_file(entries, file),
        _ => false,
    }
}

/// Whether `file` is a regular file of the tree under one of the nodes.
pub open spec fn any_has_file(nodes: Seq<DirNode>, file: String) -> bool
    decreases nodes, 1nat,
{
    if nodes.len() == 0 {
        false
    } else {
        proof {
            broadcast use vstd::seq::axiom_seq_index_decreases;
            broadcast use vstd::seq::axiom_seq_subrange_decreases;

        }
        has_file(nodes.first(), file) || any_has_file(nodes.drop_first(), file)
    }
}

/// The number of regular files of the tree under the node.
pub open spec fn file_count(node: DirNode) -> nat
    decreases node, 0nat,
{
    match node {
        DirNode::File { path } => 1,
        DirNode::Dir { path, entries } => file_count_all(entries),
        _ => 0,
    }
}

/// The number of regular files of the trees under the nodes.
pub open spec fn file_count_all(nodes: Seq<DirNode>) -> nat
    decreases nodes, 1nat,
{
    if nodes.len() == 0 {
        0
    } else {
        proof {
            broadcast use vstd::seq::axiom_seq_index_decreases;
            broadcast use vstd::seq::axiom_seq_subrange_decreases;

        }
        file_count(nodes.first()) + file_count_all(nodes.drop_first())
    }
}

/// A walk that succeeds finds the regular files of the tree and nothing
/// else, each as often as it stands in the tree.
pub proof fn lemma_walk_finds_the_files(node: DirNode)
    requires
        walk(node) is Ok,
    ensures
        forall|file: String| #[trigger]
            walk(node).unwrap().contains(file) <==> has_file(node, file),
        walk(node).unwrap().len() == file_count(node),
    decreases node, 0nat,
{
    match node {
        DirNode::File { path } => {
            assert(walk(node).unwrap()[0] == path);
        },
        DirNode::Dir { path, entries } => {
            lemma_walk_all_finds_the_files(entries);
        },
        _ => {},
    }
}

/// The same of several trees walked one after another.
pub proof fn lemma_walk_all_finds_the_files(nodes: Seq<DirNode>)
    requires
        walk_all(nodes) is Ok,
    ensures
        forall|file: String| #[trigger]
            walk_all(nodes).unwrap().contains(file) <==> any_has_file(nodes, file),
        walk_all(nodes).unwrap().len() == file_count_all(nodes),
    decreases nodes, 1nat,
{
    if nodes.len() > 0 {
        broadcast use vstd::seq::axiom_seq_index_decreases;
        broadcast use vstd::seq::axiom_seq_subrange_decreases;

        lemma_walk_finds_the_files(nodes.first());
        lemma_walk_all_finds_the_files(nodes.drop_first());
        let head = walk(nodes.first()).unwrap();
        let rest = walk_all(nodes.drop_first()).unwrap();
        let all = walk_all(nodes).unwrap();
        assert(all == head + rest);
        assert forall|file: String| #[trigger] all.contains(file) <==> any_has_file(
            nodes,
            file,
        ) by {
            if head.contains(file) {
                let i = choose|i: int| 0 <= i < head.len() && head[i] == file;
                assert(all[i] == file);
            }
            if rest.contains(file) {
                let i = choose|i: int| 0 <= i < rest.len() && rest[i] == file;
                assert(all[head.len() + i] == file);
            }
            if all.contains(file) {
                let i = choose|i: int| 0 <= i < all.len() && all[i] == file;
                if i < head.len() {
                    assert(head[i] == file);
                } else {
                    assert(rest[i - head.len()] == file);
                }
            }
        }
    }
}

/// A walk over a tree that holds nothing but regular files and readable
/// directories collects exactly the regular files of the tree: every one of
/// them, nothing else, and as many as the tree holds.
pub proof fn lemma_walk_collects_the_files(root: DirNode)
    requires
        root is Dir,
        walk(root) is Ok,
    ensures
        ({
            let end = run(
                WalkView {
                    stage: WalkStage::Awaiting { path: path_of(root) },
                    files: Seq::empty(),
                    pending: Seq::empty(),
                },
                replies(seq![root]),
            );
            &&& end.stage == WalkStage::Done
            &&& end.files.len() == file_count(root)
            &&& forall|file: String| #[trigger] end.files.contains(file) <==> has_file(root, file)
        }),
{
    lemma_walk_from_root(root);
    lemma_walk_finds_the_files(root);
    assert(Seq::<String>::empty() + walk(root).unwrap() =~= walk(root).unwrap());
}

} // verus!
