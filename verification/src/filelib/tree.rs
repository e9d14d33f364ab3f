//! The directory collector: every regular file under a root, in the order
//! the file system enumerated them in. The decisions of a walk are taken
//! here, step by step; the caller lists the directories it is asked for
//! and reports what it read.

use crate::errors::{ErrorKind, Failure};
use vstd::prelude::*;

verus! {

/// What an entry of a directory is.
#[derive(Clone, Copy, Debug, PartialEq, Eq, Structural)]
pub enum EntryKind {
    /// A regular file.
    File,
    /// A directory.
    Dir,
    /// Neither a regular file nor a directory.
    Other,
    /// The type of the entry could not be read.
    Untyped,
    /// The entry itself could not be read; its path is the directory's.
    Unreadable,
}

/// One entry of a directory, as the caller read it.
#[derive(Debug, PartialEq, Eq)]
pub struct Entry {
    pub path: String,
    pub kind: EntryKind,
}

/// What the caller reports of the directory it was asked to list.
#[derive(Debug, PartialEq, Eq)]
pub enum DirEvent {
    /// The entries of the directory, in the order they were enumerated in.
    Listed { entries: Vec<Entry> },
    /// The directory does not exist.
    Missing,
    /// The directory could not be read.
    Unreadable,
}

/// What the caller is asked to do next.
#[derive(Debug, PartialEq, Eq)]
pub enum DirAction {
    /// List the directory at `path`.
    List { path: String },
    /// Nothing is left to do: every regular file is collected.
    Done,
    /// Nothing is left to do: the walk failed, and nothing is collected.
    Fail { failure: Failure },
}

/// Where a walk stands.
#[derive(Debug, PartialEq, Eq)]
pub enum WalkStage {
    /// The listing of the directory at `path` is awaited.
    Awaiting { path: String },
    /// The walk is over.
    Done,
    /// The walk was given up.
    Failed { failure: Failure },
}

/// An event as contracts see it.
pub enum DirEventView {
    Listed { entries: Seq<Entry> },
    Missing,
    Unreadable,
}

impl View for DirEvent {
    type V = DirEventView;

    open spec fn view(&self) -> DirEventView {
        match *self {
            DirEvent::Listed { entries } => DirEventView::Listed { entries: entries@ },
            DirEvent::Missing => DirEventView::Missing,
            DirEvent::Unreadable => DirEventView::Unreadable,
        }
    }
}

/// A walk as contracts see it: its stage, the files collected so far, and
/// the entries that were read and not yet looked at, the next one first.
pub struct WalkView {
    pub stage: WalkStage,
    pub files: Seq<String>,
    pub pending: Seq<Entry>,
}

/// A walk that has failed: it keeps nothing of what it had collected.
pub open spec fn failed(kind: ErrorKind, path: String) -> WalkView {
    WalkView {
        stage: WalkStage::Failed { failure: Failure { kind, path } },
        files: Seq::empty(),
        pending: Seq::empty(),
    }
}

/// Looks at the pending entries in order: a regular file is collected; a
/// directory is to be listed before anything after it is looked at; any
/// other entry ends the walk. With no entry left the walk is over.
pub open spec fn settle(files: Seq<String>, pending: Seq<Entry>) -> WalkView
    decreases pending.len(),
{
    if pending.len() == 0 {
        WalkView { stage: WalkStage::Done, files, pending }
    } else {
        let entry = pending.first();
        match entry.kind {
            EntryKind::File => settle(files.push(entry.path), pending.drop_first()),
            EntryKind::Dir => WalkView {
                stage: WalkStage::Awaiting { path: entry.path },
                files,
                pending: pending.drop_first(),
            },
            EntryKind::Other => failed(ErrorKind::DirUnsupported, entry.path),
            EntryKind::Untyped => failed(ErrorKind::CanNotGetFileOrDirType, entry.path),
            EntryKind::Unreadable => failed(ErrorKind::CanNotGetDirData, entry.path),
        }
    }
}

/// The walk after an event. The entries of a listed directory are looked
/// at before what was pending. A directory that is missing or cannot be
/// read ends the walk. A walk that is over, one way or the other, stays as
/// it is.
pub open spec fn after_event(walk: WalkView, event: DirEventView) -> WalkView {
    match walk.stage {
        WalkStage::Awaiting { path } => match event {
            DirEventView::Listed { entries } => settle(walk.files, entries + walk.pending),
            DirEventView::Missing => failed(ErrorKind::DirNotFound, path),
            DirEventView::Unreadable => failed(ErrorKind::CanNotGetDirData, path),
        },
        _ => walk,
    }
}

/// What a stage asks the caller to do.
pub open spec fn action_of(stage: WalkStage) -> DirAction {
    match stage {
        WalkStage::Awaiting { path } => DirAction::List { path },
        WalkStage::Done => DirAction::Done,
        WalkStage::Failed { failure } => DirAction::Fail { failure },
    }
}

/// A stack with its top, the last element, first.
pub open spec fn top_first(stack: Seq<Entry>) -> Seq<Entry> {
    Seq::new(stack.len(), |i: int| stack[stack.len() - 1 - i])
}

/// The walk of one directory tree.
pub struct TreeWalk {
    stage: WalkStage,
    files: Vec<String>,
    pending: Vec<Entry>,
}

impl View for TreeWalk {
    type V = WalkView;

    closed spec fn view(&self) -> WalkView {
        WalkView { stage: self.stage, files: self.files@, pending: top_first(self.pending@) }
    }
}

impl TreeWalk {
    /// The walk of the tree under the directory at `root`, which is to be
    /// listed first.
    pub fn new(root: String) -> (r: TreeWalk)
        ensures
            r@ == (WalkView {
                stage: WalkStage::Awaiting { path: root },
                files: Seq::empty(),
                pending: Seq::empty(),
            }),
    {
        let walk = TreeWalk {
            stage: WalkStage::Awaiting { path: root },
            files: Vec::new(),
            pending: Vec::new(),
        };
        assert(walk@.pending =~= Seq::<Entry>::empty());
        walk
    }

    /// What the walk asks for.
    pub fn action(&self) -> (r: DirAction)
        ensures
            r == action_of(self@.stage),
    {
        match &self.stage {
            WalkStage::Awaiting { path } => DirAction::List { path: path.clone() },
            WalkStage::Done => DirAction::Done,
            WalkStage::Failed { failure } => DirAction::Fail {
                failure: Failure { kind: failure.kind, path: failure.path.clone() },
            },
        }
    }

    /// The files collected so far: all the regular files of the tree once
    /// the walk is done, none once it has failed.
    pub fn files(&self) -> (r: &Vec<String>)
        ensures
            r@ == self@.files,
    {
        &self.files
    }

    /// Gives up the walk for the files collected: all the regular files of
    /// the tree once the walk is done, none once it has failed.
    pub fn into_files(self) -> (r: Vec<String>)
        ensures
            r@ == self@.files,
    {
        self.files
    }

    /// Ends the walk with a failure and drops what was collected.
    fn fail(&mut self, kind: ErrorKind, path: String)
        ensures
            final(self)@ == failed(kind, path),
    {
        self.stage = WalkStage::Failed { failure: Failure { kind, path } };
        self.files = Vec::new();
        self.pending = Vec::new();
        assert(self@.pending =~= Seq::<Entry>::empty());
    }

    /// Puts the entries of a listing on the stack, the first on top.
    fn push_listing(&mut self, entries: Vec<Entry>)
        ensures
            final(self)@.stage == old(self)@.stage,
            final(self)@.files == old(self)@.files,
            final(self)@.pending == entries@ + old(self)@.pending,
    {
        let mut entries = entries;
        let ghost listed = entries@;
        let ghost before = self.pending@;
        while entries.len() > 0
            invariant
                entries@.len() <= listed.len(),
                entries@ == listed.take(entries@.len() as int),
                self.stage == old(self).stage,
                self.files == old(self).files,
                self.pending@.len() == before.len() + listed.len() - entries@.len(),
                forall|i: int| 0 <= i < before.len() ==> self.pending@[i] == before[i],
                forall|i: int|
                    before.len() <= i < self.pending@.len() ==> self.pending@[i] == listed[listed.len()
                        - 1 - (i - before.len())],
            decreases entries@.len(),
        {
            let ghost left = entries@.len();
            match entries.pop() {
                Some(entry) => {
                    assert(entry == listed[left - 1]);
                    self.pending.push(entry);
                    assert(entries@ =~= listed.take(entries@.len() as int));
                },
                None => {},
            }
        }
        assert(top_first(self.pending@) =~= listed + top_first(before));
    }

    /// Looks at the pending entries until a directory is to be listed or
    /// the walk is over.
    fn settle(&mut self)
        ensures
            final(self)@ == settle(old(self)@.files, old(self)@.pending),
    {
        let ghost goal = settle(self@.files, self@.pending);
        loop
            invariant_except_break
                settle(self@.files, self@.pending) == goal,
            ensures
                self@ == goal,
            decreases self.pending@.len(),
        {
            let ghost before = self@.pending;
            match self.pending.pop() {
                None => {
                    self.stage = WalkStage::Done;
                    assert(self@.pending =~= before);
                    break ;
                },
                Some(entry) => {
                    assert(entry == before.first());
                    assert(self@.pending =~= before.drop_first());
                    match entry.kind {
                        EntryKind::File => {
                            self.files.push(entry.path);
                        },
                        EntryKind::Dir => {
                            self.stage = WalkStage::Awaiting { path: entry.path };
                            break ;
                        },
                        EntryKind::Other => {
                            self.fail(ErrorKind::DirUnsupported, entry.path);
                            break ;
                        },
                        EntryKind::Untyped => {
                            self.fail(ErrorKind::CanNotGetFileOrDirType, entry.path);
                            break ;
                        },
                        EntryKind::Unreadable => {
                            self.fail(ErrorKind::CanNotGetDirData, entry.path);
                            break ;
                        },
                    }
                },
            }
        }
    }
}

/// Collects the regular files of a directory tree, one directory at a
/// time. The caller lists the directory that is asked for and reports its
/// entries, until `Done` or `Fail` is asked. Files are collected in the
/// order of enumeration, and a directory is gone into as soon as it is met:
/// its files come where the directory stood among the entries. An entry
/// that is neither a regular file nor a directory, an entry or a directory
/// that cannot be read and a directory that is missing are fatal: the walk
/// ends at the first one met and keeps nothing.
pub fn dir_files_tree(walk: &mut TreeWalk, event: DirEvent) -> (r: DirAction)
    ensures
        final(walk)@ == after_event(old(walk)@, event@),
        r == action_of(final(walk)@.stage),
{
    let awaited: String = match &walk.stage {
        WalkStage::Awaiting { path } => path.clone(),
        _ => {
            return walk.action();
        },
    };
    match event {
        DirEvent::Listed { entries } => {
            walk.push_listing(entries);
            walk.settle();
        },
        DirEvent::Missing => {
            walk.fail(ErrorKind::DirNotFound, awaited);
        },
        DirEvent::Unreadable => {
            walk.fail(ErrorKind::CanNotGetDirData, awaited);
        },
    }
    walk.action()
}

} // verus!
