//! Secure erasure: a file is overwritten in several passes and then
//! removed. The decisions of an erasure are taken here, step by step; the
//! caller opens, writes, flushes and removes, and reports what came of it.

use crate::errors::ErrorKind;
use rand::Rng;
use vstd::prelude::*;

verus! {

/// The size of the buffer of a standard pass, and the most that is written
/// at once.
pub const WIPE_BUFFER_SIZE: usize = 65536;

/// What a pass overwrites the file with.
#[derive(Clone, Copy, Debug, PartialEq, Eq, Structural)]
pub enum WipePattern {
    /// Bytes of value one.
    AllOnes,
    /// Bytes of value zero.
    AllZeros,
    /// Bytes drawn from a cryptographically strong random source.
    Random,
}

/// How often a random pass draws its bytes.
#[derive(Clone, Copy, Debug, PartialEq, Eq, Structural)]
pub enum RandomFill {
    /// Once: every write of the pass repeats the same random bytes. This is
    /// the faster choice, and the weaker one.
    OncePerPass,
    /// Before every write.
    FreshPerWrite,
}

/// One sweep over the whole file.
#[derive(Clone, Copy, Debug, PartialEq, Eq, Structural)]
pub struct WipePass {
    pub pattern: WipePattern,
    /// The most bytes that one write of the pass carries.
    pub buffer_size: usize,
    pub random_fill: RandomFill,
}

/// The passes of an erasure, in the order they are run in. Every pass of a
/// plan has a buffer of one byte at least.
pub struct WipePlan {
    passes: Vec<WipePass>,
}

/// Whether every pass has a buffer of one byte at least.
pub open spec fn passes_usable(passes: Seq<WipePass>) -> bool {
    forall|i: int| 0 <= i < passes.len() ==> (#[trigger] passes[i]).buffer_size >= 1
}

/// A pass of the standard plan.
pub open spec fn standard_pass(pattern: WipePattern) -> WipePass {
    WipePass { pattern, buffer_size: WIPE_BUFFER_SIZE, random_fill: RandomFill::OncePerPass }
}

/// The passes of the standard plan: ones, random, random, zeros.
pub open spec fn standard_passes() -> Seq<WipePass> {
    seq![
        standard_pass(WipePattern::AllOnes),
        standard_pass(WipePattern::Random),
        standard_pass(WipePattern::Random),
        standard_pass(WipePattern::AllZeros),
    ]
}

impl WipePass {
    /// A pass with the pattern, a buffer of 64 KiB, and random bytes drawn
    /// once.
    pub fn standard(pattern: WipePattern) -> (r: WipePass)
        ensures
            r == standard_pass(pattern),
    {
        WipePass { pattern, buffer_size: WIPE_BUFFER_SIZE, random_fill: RandomFill::OncePerPass }
    }
}

impl WipePlan {
    #[verifier::type_invariant]
    spec fn usable(self) -> bool {
        passes_usable(self.passes@)
    }

    /// The passes of the plan.
    pub closed spec fn view(&self) -> Seq<WipePass> {
        self.passes@
    }

    /// The plan of four passes: ones, random, random, zeros, each with a
    /// buffer of 64 KiB and with random bytes drawn once per pass.
    pub fn standard() -> (r: WipePlan)
        ensures
            r@ == standard_passes(),
    {
        let mut passes: Vec<WipePass> = Vec::new();
        passes.push(WipePass::standard(WipePattern::AllOnes));
        passes.push(WipePass::standard(WipePattern::Random));
        passes.push(WipePass::standard(WipePattern::Random));
        passes.push(WipePass::standard(WipePattern::AllZeros));
        assert(passes@ =~= standard_passes());
        WipePlan { passes }
    }

    /// A plan of the given passes, `None` where one of them has an empty
    /// buffer: such a pass would never get through a file.
    pub fn new(passes: Vec<WipePass>) -> (r: Option<WipePlan>)
        ensures
            r is Some <==> passes_usable(passes@),
            r matches Some(plan) ==> plan@ == passes@,
    {
        let mut i: usize = 0;
        while i < passes.len()
            invariant
                i <= passes@.len(),
                passes_usable(passes@.take(i as int)),
            decreases passes@.len() - i,
        {
            if passes[i].buffer_size == 0 {
                return None;
            }
            assert forall|k: int| 0 <= k < i + 1 implies (#[trigger] passes@.take(
                i + 1,
            )[k]).buffer_size >= 1 by {
                if k < i {
                    assert(passes@.take(i as int)[k] == passes@[k]);
                }
            }
            i = i + 1;
        }
        assert(passes@.take(i as int) =~= passes@);
        Some(WipePlan { passes })
    }

    /// The number of passes.
    pub fn len(&self) -> (r: usize)
        ensures
            r == self@.len(),
    {
        self.passes.len()
    }

    /// Pass `index` of the plan.
    pub fn pass(&self, index: usize) -> (r: WipePass)
        requires
            index < self@.len(),
        ensures
            r == self@[index as int],
            r.buffer_size >= 1,
    {
        proof {
            use_type_invariant(self);
        }
        self.passes[index]
    }
}

/// The length of the buffer of a pass over a file of `len` bytes: the
/// pass's buffer size, or the file's length where that is less.
pub open spec fn buffer_len(len: nat, buffer_size: nat) -> nat {
    if len < buffer_size {
        len
    } else {
        buffer_size
    }
}

/// How many bytes the write at `position` carries: a whole buffer, or
/// what is left of the file where that is less.
pub open spec fn write_len(len: nat, buffer_size: nat, position: nat) -> nat
    recommends
        position < len,
{
    if len - position < buffer_len(len, buffer_size) {
        (len - position) as nat
    } else {
        buffer_len(len, buffer_size)
    }
}

/// How many writes a pass makes: none on an empty file, else the file's
/// length divided by the buffer's, rounded up.
pub open spec fn write_count(len: nat, buffer_size: nat) -> nat
    recommends
        buffer_size >= 1,
{
    if len == 0 {
        0
    } else {
        ((len + buffer_len(len, buffer_size) - 1) / buffer_len(len, buffer_size) as int) as nat
    }
}

/// Where write `index` of a pass starts.
pub open spec fn write_offset(len: nat, buffer_size: nat, index: nat) -> nat {
    index * buffer_len(len, buffer_size)
}

/// The writes of a pass lie end to end from the start of the file to its
/// end: the first starts at 0, each starts where the one before it ended,
/// the last ends at the end of the file, and none is empty or longer than
/// the buffer.
pub proof fn lemma_writes_tile(len: nat, buffer_size: nat)
    requires
        buffer_size >= 1,
        len >= 1,
    ensures
        write_count(len, buffer_size) >= 1,
        write_offset(len, buffer_size, 0) == 0,
        forall|index: nat|
            index < write_count(len, buffer_size) ==> {
                let offset = #[trigger] write_offset(len, buffer_size, index);
                &&& offset < len
                &&& 1 <= write_len(len, buffer_size, offset) <= buffer_len(len, buffer_size)
                &&& offset + write_len(len, buffer_size, offset) == if index + 1 == write_count(
                    len,
                    buffer_size,
                ) {
                    len
                } else {
                    write_offset(len, buffer_size, index + 1)
                }
            },
{
    let size = buffer_len(len, buffer_size) as int;
    let count = write_count(len, buffer_size) as int;
    let n = len as int;
    assert(count >= 1 && (count - 1) * size < n && count * size >= n) by (nonlinear_arith)
        requires
            count == (n + size - 1) / size,
            1 <= size <= n,
    ;
    assert(0 * size == 0);
    assert forall|index: nat| index < write_count(len, buffer_size) implies {
        let offset = #[trigger] write_offset(len, buffer_size, index);
        &&& offset < len
        &&& 1 <= write_len(len, buffer_size, offset) <= buffer_len(len, buffer_size)
        &&& offset + write_len(len, buffer_size, offset) == if index + 1 == write_count(
            len,
            buffer_size,
        ) {
            len
        } else {
            write_offset(len, buffer_size, index + 1)
        }
    } by {
        let i = index as int;
        assert(i * size < n && (i + 1) * size == i * size + size && (i + 1 < count ==> (i + 1)
            * size < n) && (i + 1 == count ==> (i + 1) * size >= n)) by (nonlinear_arith)
            requires
                0 <= i < count,
                (count - 1) * size < n,
                count * size >= n,
                size >= 1,
        ;
    }
}

/// Where an erasure stands.
#[derive(Clone, Copy, Debug, PartialEq, Eq, Structural)]
pub enum WipeStage {
    /// Nothing has been asked for yet.
    Idle,
    /// The file is to be opened for pass `pass` and its length read.
    Opening { pass: usize },
    /// Pass `pass` over a file of `len` bytes is to write at `position`.
    Writing { pass: usize, len: u64, position: u64 },
    /// Pass `pass` has written the whole file, which is to be flushed.
    Flushing { pass: usize },
    /// Every pass is done and the file is to be removed.
    Deleting,
    /// The file is gone.
    Deleted,
    /// The erasure was given up; the file is in an unknown state.
    Failed { kind: ErrorKind },
}

/// What the caller reports.
#[derive(Clone, Copy, Debug, PartialEq, Eq, Structural)]
pub enum WipeEvent {
    /// The erasure shall begin.
    Start,
    /// The file is open for writing and holds `len` bytes.
    Opened { len: u64 },
    /// The path is missing or is no regular file.
    NotFound,
    /// The file is there and could not be opened for writing.
    OpenFailed,
    /// The bytes asked for were written where they were asked for.
    Written,
    /// The position asked for could not be reached.
    SeekFailed,
    /// The bytes could not be written.
    WriteFailed,
    /// The file was flushed.
    Flushed,
    /// The file could not be flushed.
    FlushFailed,
    /// The file was removed.
    Removed,
    /// The file could not be removed.
    RemoveFailed,
}

/// What the caller is asked to do next.
#[derive(Clone, Copy, Debug, PartialEq, Eq, Structural)]
pub enum WipeAction {
    /// Open the file for writing and read its length.
    Open,
    /// Seek to `offset` and write the first `count` bytes of the buffer.
    Write { offset: u64, count: usize },
    /// Flush the file.
    Flush,
    /// Remove the file.
    Remove,
    /// Nothing is left to do: the erasure succeeded.
    Done,
    /// Nothing is left to do: the erasure failed.
    Fail { kind: ErrorKind },
}

/// The stage at the start of pass `pass`: the file is opened for it, or is
/// removed where the plan has no such pass.
pub open spec fn enter_pass(plan: Seq<WipePass>, pass: int) -> WipeStage {
    if pass < plan.len() {
        WipeStage::Opening { pass: pass as usize }
    } else {
        WipeStage::Deleting
    }
}

/// Whether the event answers what the stage asked for.
pub open spec fn expects(stage: WipeStage, event: WipeEvent) -> bool {
    match stage {
        WipeStage::Idle => event is Start,
        WipeStage::Opening { .. } => event is Opened || event is NotFound || event is OpenFailed,
        WipeStage::Writing { .. } => event is Written || event is SeekFailed
            || event is WriteFailed,
        WipeStage::Flushing { .. } => event is Flushed || event is FlushFailed,
        WipeStage::Deleting => event is Removed || event is RemoveFailed,
        WipeStage::Deleted => false,
        WipeStage::Failed { .. } => false,
    }
}

/// The stage after an event. Any failure ends the erasure at once: no later
/// pass is run and the file is not removed. A pass over an empty file
/// writes and flushes nothing. An event that the stage does not expect
/// changes nothing.
pub open spec fn advance(plan: Seq<WipePass>, stage: WipeStage, event: WipeEvent) -> WipeStage {
    match (stage, event) {
        (WipeStage::Idle, WipeEvent::Start) => enter_pass(plan, 0),
        (WipeStage::Opening { pass }, WipeEvent::Opened { len }) => if len == 0 {
            enter_pass(plan, pass + 1)
        } else {
            WipeStage::Writing { pass, len, position: 0 }
        },
        (WipeStage::Opening { .. }, WipeEvent::NotFound) => WipeStage::Failed {
            kind: ErrorKind::FileNotFound,
        },
        (WipeStage::Opening { .. }, WipeEvent::OpenFailed) => WipeStage::Failed {
            kind: ErrorKind::FileOpen,
        },
        (WipeStage::Writing { pass, len, position }, WipeEvent::Written) => {
            let next = position + write_len(
                len as nat,
                plan[pass as int].buffer_size as nat,
                position as nat,
            );
            if next < len {
                WipeStage::Writing { pass, len, position: next as u64 }
            } else {
                WipeStage::Flushing { pass }
            }
        },
        (WipeStage::Writing { .. }, WipeEvent::SeekFailed) => WipeStage::Failed {
            kind: ErrorKind::FileSeek,
        },
        (WipeStage::Writing { .. }, WipeEvent::WriteFailed) => WipeStage::Failed {
            kind: ErrorKind::FileWrite,
        },
        (WipeStage::Flushing { pass }, WipeEvent::Flushed) => enter_pass(plan, pass + 1),
        (WipeStage::Flushing { .. }, WipeEvent::FlushFailed) => WipeStage::Failed {
            kind: ErrorKind::FileFlush,
        },
        (WipeStage::Deleting, WipeEvent::Removed) => WipeStage::Deleted,
        (WipeStage::Deleting, WipeEvent::RemoveFailed) => WipeStage::Failed {
            kind: ErrorKind::FileDelete,
        },
        _ => stage,
    }
}

/// What a stage asks the caller to do; nothing before the start.
pub open spec fn action_of(plan: Seq<WipePass>, stage: WipeStage) -> Option<WipeAction> {
    match stage {
        WipeStage::Idle => None,
        WipeStage::Opening { .. } => Some(WipeAction::Open),
        WipeStage::Writing { pass, len, position } => Some(
            WipeAction::Write {
                offset: position,
                count: write_len(
                    len as nat,
                    plan[pass as int].buffer_size as nat,
                    position as nat,
                ) as usize,
            },
        ),
        WipeStage::Flushing { .. } => Some(WipeAction::Flush),
        WipeStage::Deleting => Some(WipeAction::Remove),
        WipeStage::Deleted => Some(WipeAction::Done),
        WipeStage::Failed { kind } => Some(WipeAction::Fail { kind }),
    }
}

/// Whether the buffer holds the pattern. Of random bytes nothing is known.
pub open spec fn filled_with(buffer: Seq<u8>, pattern: WipePattern) -> bool {
    match pattern {
        WipePattern::AllOnes => forall|i: int| 0 <= i < buffer.len() ==> buffer[i] == 1,
        WipePattern::AllZeros => forall|i: int| 0 <= i < buffer.len() ==> buffer[i] == 0,
        WipePattern::Random => true,
    }
}

/// Whether the stage is one of the plan and the buffer is the buffer of
/// that stage: while a pass writes, the buffer has the length of the pass's
/// buffer over the file and holds the pass's pattern.
pub open spec fn stage_fits(plan: Seq<WipePass>, stage: WipeStage, buffer: Seq<u8>) -> bool {
    match stage {
        WipeStage::Opening { pass } => pass < plan.len(),
        WipeStage::Writing { pass, len, position } => {
            &&& pass < plan.len()
            &&& position < len
            &&& buffer.len() == buffer_len(len as nat, plan[pass as int].buffer_size as nat)
            &&& filled_with(buffer, plan[pass as int].pattern)
        },
        WipeStage::Flushing { pass } => pass < plan.len(),
        _ => true,
    }
}

/// An erasure as contracts see it.
pub struct WipeView {
    pub path: Seq<char>,
    pub plan: Seq<WipePass>,
    pub stage: WipeStage,
    pub buffer: Seq<u8>,
}

/// The erasure of one file: the plan, the stage it has reached, and the
/// buffer that the running pass writes from.
pub struct Wipe {
    path: String,
    plan: WipePlan,
    stage: WipeStage,
    buffer: Vec<u8>,
}

impl View for Wipe {
    type V = WipeView;

    closed spec fn view(&self) -> WipeView {
        WipeView {
            path: self.path@,
            plan: self.plan@,
            stage: self.stage,
            buffer: self.buffer@,
        }
    }
}

/// Calls `Rng::fill` on the generator that `rand::rng` hands out, to fill a
/// new buffer of `count` bytes with random bytes. Only the length is known
/// of the result.
#[verifier::external_body]
fn random_bytes(count: usize) -> (r: Vec<u8>)
    ensures
        r@.len() == count,
{
    let mut bytes = vec![0u8; count];
    rand::rng().fill(&mut bytes[..]);
    bytes
}

/// A buffer of `count` bytes that holds the pattern.
fn make_buffer(pattern: WipePattern, count: usize) -> (r: Vec<u8>)
    ensures
        r@.len() == count,
        filled_with(r@, pattern),
{
    match pattern {
        WipePattern::AllOnes => vec![1u8; count],
        WipePattern::AllZeros => vec![0u8; count],
        WipePattern::Random => random_bytes(count),
    }
}

impl Wipe {
    #[verifier::type_invariant]
    spec fn consistent(self) -> bool {
        stage_fits(self.plan@, self.stage, self.buffer@)
    }

    /// The erasure of the file at `path` by the standard plan, not yet begun.
    pub fn new(path: String) -> (r: Wipe)
        ensures
            r@.path == path@,
            r@.plan == standard_passes(),
            r@.stage == WipeStage::Idle,
    {
        Wipe { path, plan: WipePlan::standard(), stage: WipeStage::Idle, buffer: Vec::new() }
    }

    /// The erasure of the file at `path` by a plan of the caller's, not yet
    /// begun.
    pub fn with_plan(path: String, plan: WipePlan) -> (r: Wipe)
        ensures
            r@.path == path@,
            r@.plan == plan@,
            r@.stage == WipeStage::Idle,
            passes_usable(r@.plan),
    {
        proof {
            use_type_invariant(&plan);
        }
        Wipe { path, plan, stage: WipeStage::Idle, buffer: Vec::new() }
    }

    /// The path of the file.
    pub fn path(&self) -> (r: &String)
        ensures
            r@ == self@.path,
    {
        &self.path
    }

    /// The stage that the erasure has reached.
    pub fn stage(&self) -> (r: WipeStage)
        ensures
            r == self@.stage,
            stage_fits(self@.plan, self@.stage, self@.buffer),
            passes_usable(self@.plan),
    {
        proof {
            use_type_invariant(self);
            use_type_invariant(&self.plan);
        }
        self.stage
    }

    /// The buffer that a `Write` takes its bytes from.
    pub fn buffer(&self) -> (r: &Vec<u8>)
        ensures
            r@ == self@.buffer,
    {
        &self.buffer
    }
}

/// Whether pass `pass` of the plan draws new random bytes before every
/// write.
pub open spec fn redraws(plan: Seq<WipePass>, pass: int) -> bool {
    plan[pass].pattern == WipePattern::Random && plan[pass].random_fill
        == RandomFill::FreshPerWrite
}

/// What the stage of an erasure asks for.
fn action_for(wipe: &Wipe) -> (r: Option<WipeAction>)
    ensures
        r == action_of(wipe@.plan, wipe@.stage),
{
    proof {
        use_type_invariant(wipe);
        use_type_invariant(&wipe.plan);
    }
    match wipe.stage {
        WipeStage::Idle => None,
        WipeStage::Opening { .. } => Some(WipeAction::Open),
        WipeStage::Writing { pass, len, position } => {
            let size: usize = wipe.buffer.len();
            let count: usize = if len - position < size as u64 {
                (len - position) as usize
            } else {
                size
            };
            Some(WipeAction::Write { offset: position, count })
        },
        WipeStage::Flushing { .. } => Some(WipeAction::Flush),
        WipeStage::Deleting => Some(WipeAction::Remove),
        WipeStage::Deleted => Some(WipeAction::Done),
        WipeStage::Failed { kind } => Some(WipeAction::Fail { kind }),
    }
}

/// The stage at the start of pass `pass`.
fn stage_entering(plan: &WipePlan, pass: usize) -> (r: WipeStage)
    ensures
        r == enter_pass(plan@, pass as int),
{
    if pass < plan.len() {
        WipeStage::Opening { pass }
    } else {
        WipeStage::Deleting
    }
}

/// The stage after pass `pass`.
fn stage_after(plan: &WipePlan, pass: usize) -> (r: WipeStage)
    requires
        pass < plan@.len(),
    ensures
        r == enter_pass(plan@, pass + 1),
{
    let total: usize = plan.len();
    if pass + 1 < total {
        WipeStage::Opening { pass: pass + 1 }
    } else {
        WipeStage::Deleting
    }
}

/// Wipes and deletes the file of `wipe`, one step at a time. The caller
/// begins with `Start`, does what is asked, and reports what came of it,
/// until `Done` or `Fail` is asked. The passes of the plan run in order.
/// Each opens the file and reads its length; on an empty file it does no
/// more. Else it fills one buffer with its pattern, as long as the pass's
/// buffer size or as the file where that is shorter, and writes it from
/// position 0 on, seeking before every write and cutting the last write at
/// the end of the file; then it flushes. After the last pass the file is
/// removed. The first failure ends the erasure.
///
/// The result is `None` for an event that the stage did not expect, and
/// nothing changes then. The buffer is left alone while a pass writes,
/// unless the pass is to draw fresh random bytes for every write.
pub fn wipe_delete(wipe: &mut Wipe, event: WipeEvent) -> (r: Option<WipeAction>)
    ensures
        final(wipe)@.path == old(wipe)@.path,
        final(wipe)@.plan == old(wipe)@.plan,
        final(wipe)@.stage == advance(old(wipe)@.plan, old(wipe)@.stage, event),
        r == if expects(old(wipe)@.stage, event) {
            action_of(final(wipe)@.plan, final(wipe)@.stage)
        } else {
            None
        },
        passes_usable(final(wipe)@.plan),
        stage_fits(final(wipe)@.plan, final(wipe)@.stage, final(wipe)@.buffer),
        old(wipe)@.stage matches WipeStage::Writing { pass, .. } ==> final(wipe)@.stage is Writing
            && !redraws(old(wipe)@.plan, pass as int) ==> final(wipe)@.buffer == old(wipe)@.buffer,
{
    proof {
        use_type_invariant(&*wipe);
        use_type_invariant(&wipe.plan);
    }
    match (wipe.stage, event) {
        (WipeStage::Idle, WipeEvent::Start) => {
            wipe.stage = stage_entering(&wipe.plan, 0);
        },
        (WipeStage::Opening { pass }, WipeEvent::Opened { len }) => {
            if len == 0 {
                wipe.stage = stage_after(&wipe.plan, pass);
            } else {
                let chosen = wipe.plan.pass(pass);
                let size: usize = if len < chosen.buffer_size as u64 {
                    len as usize
                } else {
                    chosen.buffer_size
                };
                wipe.buffer = make_buffer(chosen.pattern, size);
                wipe.stage = WipeStage::Writing { pass, len, position: 0 };
            }
        },
        (WipeStage::Opening { .. }, WipeEvent::NotFound) => {
            wipe.stage = WipeStage::Failed { kind: ErrorKind::FileNotFound };
        },
        (WipeStage::Opening { .. }, WipeEvent::OpenFailed) => {
            wipe.stage = WipeStage::Failed { kind: ErrorKind::FileOpen };
        },
        (WipeStage::Writing { pass, len, position }, WipeEvent::Written) => {
            let chosen = wipe.plan.pass(pass);
            let size: usize = wipe.buffer.len();
            let count: u64 = if len - position < size as u64 {
                len - position
            } else {
                size as u64
            };
            let next: u64 = position + count;
            if next < len {
                if chosen.pattern == WipePattern::Random && chosen.random_fill
                    == RandomFill::FreshPerWrite {
                    wipe.buffer = random_bytes(size);
                }
                wipe.stage = WipeStage::Writing { pass, len, position: next };
            } else {
                wipe.stage = WipeStage::Flushing { pass };
            }
        },
        (WipeStage::Writing { .. }, WipeEvent::SeekFailed) => {
            wipe.stage = WipeStage::Failed { kind: ErrorKind::FileSeek };
        },
        (WipeStage::Writing { .. }, WipeEvent::WriteFailed) => {
            wipe.stage = WipeStage::Failed { kind: ErrorKind::FileWrite };
        },
        (WipeStage::Flushing { pass }, WipeEvent::Flushed) => {
            wipe.stage = stage_after(&wipe.plan, pass);
        },
        (WipeStage::Flushing { .. }, WipeEvent::FlushFailed) => {
            wipe.stage = WipeStage::Failed { kind: ErrorKind::FileFlush };
        },
        (WipeStage::Deleting, WipeEvent::Removed) => {
            wipe.stage = WipeStage::Deleted;
        },
        (WipeStage::Deleting, WipeEvent::RemoveFailed) => {
            wipe.stage = WipeStage::Failed { kind: ErrorKind::FileDelete };
        },
        _ => {
            return None;
        },
    }
    action_for(wipe)
}

} // verus!
