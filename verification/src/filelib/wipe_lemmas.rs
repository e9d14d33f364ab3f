//! What holds of an erasure from its start to its end.

use crate::errors::ErrorKind;
use crate::filelib::wipe::{
    advance, enter_pass, expects, lemma_writes_tile, passes_usable, write_count, write_offset,
    WipeEvent, WipePass, WipeStage,
};
use vstd::prelude::*;

verus! {

/// The stage that a run of events leads to.
pub open spec fn run(plan: Seq<WipePass>, stage: WipeStage, events: Seq<WipeEvent>) -> WipeStage
    decreases events.len(),
{
    if events.len() == 0 {
        stage
    } else {
        run(plan, advance(plan, stage, events.first()), events.drop_first())
    }
}

/// `count` reports of a write that went well.
pub open spec fn written(count: nat) -> Seq<WipeEvent> {
    Seq::new(count, |i: int| WipeEvent::Written)
}

/// What a caller reports of one pass over a file of `len` bytes when
/// nothing fails: the file opened, every write of the pass, the flush. Of a
/// pass over an empty file it reports the opening only.
pub open spec fn pass_events(len: u64, buffer_size: usize) -> Seq<WipeEvent> {
    if len == 0 {
        seq![WipeEvent::Opened { len }]
    } else {
        seq![WipeEvent::Opened { len }] + written(write_count(len as nat, buffer_size as nat))
            + seq![WipeEvent::Flushed]
    }
}

/// What a caller reports from pass `pass` on when nothing fails: the
/// events of every pass that is left, then the removal.
pub open spec fn events_from(plan: Seq<WipePass>, pass: int, len: u64) -> Seq<WipeEvent>
    decreases plan.len() - pass,
{
    if pass < 0 || pass >= plan.len() {
        seq![WipeEvent::Removed]
    } else {
        pass_events(len, plan[pass].buffer_size) + events_from(plan, pass + 1, len)
    }
}

/// What a caller reports of a whole erasure of a file of `len` bytes when
/// nothing fails.
pub open spec fn faultless(plan: Seq<WipePass>, len: u64) -> Seq<WipeEvent> {
    seq![WipeEvent::Start] + events_from(plan, 0, len)
}

/// A run of events can be taken in two parts.
pub proof fn lemma_run_concat(
    plan: Seq<WipePass>,
    stage: WipeStage,
    front: Seq<WipeEvent>,
    back: Seq<WipeEvent>,
)
    ensures
        run(plan, stage, front + back) == run(plan, run(plan, stage, front), back),
    decreases front.len(),
{
    if front.len() == 0 {
        assert(front + back =~= back);
    } else {
        assert((front + back).first() == front.first());
        assert((front + back).drop_first() =~= front.drop_first() + back);
        lemma_run_concat(plan, advance(plan, stage, front.first()), front.drop_first(), back);
    }
}

/// An erasure that has failed or has removed the file stays as it is,
/// whatever is reported to it.
pub proof fn lemma_end_is_final(plan: Seq<WipePass>, stage: WipeStage, events: Seq<WipeEvent>)
    requires
        stage is Failed || stage is Deleted,
    ensures
        run(plan, stage, events) == stage,
    decreases events.len(),
{
    if events.len() > 0 {
        lemma_end_is_final(plan, stage, events.drop_first());
    }
}

/// A failure that is reported where it can occur ends the erasure at once,
/// with the kind of error that belongs to the step that failed.
pub proof fn lemma_failure_ends_run(plan: Seq<WipePass>, stage: WipeStage, event: WipeEvent)
    requires
        expects(stage, event),
        !(event is Start || event is Opened || event is Written || event is Flushed
            || event is Removed),
    ensures
        advance(plan, stage, event) == (WipeStage::Failed {
            kind: match event {
                WipeEvent::NotFound => ErrorKind::FileNotFound,
                WipeEvent::OpenFailed => ErrorKind::FileOpen,
                WipeEvent::SeekFailed => ErrorKind::FileSeek,
                WipeEvent::WriteFailed => ErrorKind::FileWrite,
                WipeEvent::FlushFailed => ErrorKind::FileFlush,
                _ => ErrorKind::FileDelete,
            },
        }),
{
}

/// The writes of a pass: after `done` writes that went well, the pass asks
/// for the write at `done` times the buffer's length, and after the last
/// write for the flush. With `lemma_writes_tile`, the writes of a pass
/// cover the file from its first byte to its last, each byte once.
pub proof fn lemma_pass_writes(plan: Seq<WipePass>, pass: usize, len: u64, done: nat)
    requires
        passes_usable(plan),
        pass < plan.len(),
        len >= 1,
        done <= write_count(len as nat, plan[pass as int].buffer_size as nat),
    ensures
        run(plan, WipeStage::Writing { pass, len, position: 0 }, written(done)) == if done
            < write_count(len as nat, plan[pass as int].buffer_size as nat) {
            WipeStage::Writing {
                pass,
                len,
                position: write_offset(
                    len as nat,
                    plan[pass as int].buffer_size as nat,
                    done,
                ) as u64,
            }
        } else {
            WipeStage::Flushing { pass }
        },
    decreases done,
{
    let size = plan[pass as int].buffer_size as nat;
    let start = WipeStage::Writing { pass, len, position: 0 };
    lemma_writes_tile(len as nat, size);
    if done == 0 {
        assert(write_offset(len as nat, size, 0) == 0);
    } else {
        let before = (done - 1) as nat;
        lemma_pass_writes(plan, pass, len, before);
        assert(written(done) =~= written(before) + seq![WipeEvent::Written]);
        lemma_run_concat(plan, start, written(before), seq![WipeEvent::Written]);
        let reached = run(plan, start, written(before));
        let offset = write_offset(len as nat, size, before);
        assert(reached == WipeStage::Writing { pass, len, position: offset as u64 });
        let last = seq![WipeEvent::Written];
        assert(last.drop_first() =~= Seq::<WipeEvent>::empty());
        assert(run(plan, reached, last) == advance(plan, reached, WipeEvent::Written)) by {
            assert(last.first() == WipeEvent::Written);
            assert(run(plan, advance(plan, reached, last.first()), last.drop_first()) == advance(
                plan,
                reached,
                last.first(),
            ));
        }
    }
}

/// From the start of any pass, an erasure in which nothing fails removes
/// the file.
pub proof fn lemma_passes_end_deleted(plan: Seq<WipePass>, pass: int, len: u64)
    requires
        passes_usable(plan),
        0 <= pass <= plan.len() <= usize::MAX,
    ensures
        run(plan, enter_pass(plan, pass), events_from(plan, pass, len)) == WipeStage::Deleted,
    decreases plan.len() - pass,
{
    let events = events_from(plan, pass, len);
    if pass >= plan.len() {
        assert(events.drop_first() =~= Seq::<WipeEvent>::empty());
        assert(run(plan, advance(plan, WipeStage::Deleting, events.first()), events.drop_first())
            == WipeStage::Deleted);
    } else {
        let size = plan[pass].buffer_size;
        let own = pass_events(len, size);
        let later = events_from(plan, pass + 1, len);
        let opening = WipeStage::Opening { pass: pass as usize };
        lemma_passes_end_deleted(plan, pass + 1, len);
        lemma_run_concat(plan, opening, own, later);
        assert(run(plan, opening, own) == enter_pass(plan, pass + 1)) by {
            let opened = seq![WipeEvent::Opened { len }];
            assert(opened.drop_first() =~= Seq::<WipeEvent>::empty());
            assert(run(plan, opening, opened) == advance(plan, opening, opened.first())) by {
                assert(run(plan, advance(plan, opening, opened.first()), opened.drop_first())
                    == advance(plan, opening, opened.first()));
            }
            if len > 0 {
                let count = write_count(len as nat, size as nat);
                let flushed = seq![WipeEvent::Flushed];
                let writing = WipeStage::Writing { pass: pass as usize, len, position: 0 };
                let flushing = WipeStage::Flushing { pass: pass as usize };
                assert(own =~= opened + (written(count) + flushed));
                lemma_run_concat(plan, opening, opened, written(count) + flushed);
                lemma_run_concat(plan, writing, written(count), flushed);
                lemma_pass_writes(plan, pass as usize, len, count);
                assert(flushed.drop_first() =~= Seq::<WipeEvent>::empty());
                assert(run(plan, flushing, flushed) == advance(plan, flushing, flushed.first()))
                    by {
                    assert(run(
                        plan,
                        advance(plan, flushing, flushed.first()),
                        flushed.drop_first(),
                    ) == advance(plan, flushing, flushed.first()));
                }
            }
        }
    }
}

/// An erasure in which nothing fails removes the file, whatever its
/// length.
pub proof fn lemma_faultless_ends_deleted(plan: Seq<WipePass>, len: u64)
    requires
        passes_usable(plan),
        plan.len() <= usize::MAX,
    ensures
        run(plan, WipeStage::Idle, faultless(plan, len)) == WipeStage::Deleted,
{
    let start = seq![WipeEvent::Start];
    lemma_run_concat(plan, WipeStage::Idle, start, events_from(plan, 0, len));
    assert(start.drop_first() =~= Seq::<WipeEvent>::empty());
    assert(run(plan, WipeStage::Idle, start) == enter_pass(plan, 0)) by {
        assert(run(plan, advance(plan, WipeStage::Idle, start.first()), start.drop_first())
            == advance(plan, WipeStage::Idle, start.first()));
    }
    lemma_passes_end_deleted(plan, 0, len);
}

/// Of an erasure of an empty file the caller reports openings and the
/// removal, nothing else.
proof fn lemma_empty_file_events(plan: Seq<WipePass>, pass: int)
    requires
        0 <= pass <= plan.len(),
    ensures
        forall|i: int|
            0 <= i < events_from(plan, pass, 0).len() ==> {
                let event = #[trigger] events_from(plan, pass, 0)[i];
                event == (WipeEvent::Opened { len: 0 }) || event == WipeEvent::Removed
            },
    decreases plan.len() - pass,
{
    if pass < plan.len() {
        lemma_empty_file_events(plan, pass + 1);
    }
}

/// No pass writes to an empty file or flushes it: all through an erasure of
/// an empty file in which nothing fails, the file is being opened or
/// removed, and in the end it is gone.
pub proof fn lemma_empty_file_is_not_written(plan: Seq<WipePass>, steps: int)
    requires
        passes_usable(plan),
        plan.len() <= usize::MAX,
        0 <= steps <= faultless(plan, 0).len(),
    ensures
        ({
            let stage = run(plan, WipeStage::Idle, faultless(plan, 0).take(steps));
            stage is Idle || stage is Opening || stage is Deleting || stage is Deleted
        }),
        run(plan, WipeStage::Idle, faultless(plan, 0)) == WipeStage::Deleted,
    decreases steps,
{
    let events = faultless(plan, 0);
    lemma_faultless_ends_deleted(plan, 0);
    if steps > 0 {
        lemma_empty_file_is_not_written(plan, steps - 1);
        lemma_empty_file_events(plan, 0);
        let before = events.take(steps - 1);
        let event = events[steps - 1];
        let last = seq![event];
        assert(events.take(steps) =~= before + last);
        lemma_run_concat(plan, WipeStage::Idle, before, last);
        let reached = run(plan, WipeStage::Idle, before);
        assert(last.drop_first() =~= Seq::<WipeEvent>::empty());
        assert(run(plan, reached, last) == advance(plan, reached, event)) by {
            assert(last.first() == event);
            assert(run(plan, advance(plan, reached, last.first()), last.drop_first()) == advance(
                plan,
                reached,
                last.first(),
            ));
        }
        if steps > 1 {
            assert(event == events_from(plan, 0, 0)[steps - 2]);
        }
    }
}

} // verus!
