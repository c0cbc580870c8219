//! What holds of a worker from one step to the next.

use vstd::prelude::*;
use crate::engine::coordinator::Coordinator;
use crate::engine::helpers::RetryHint;
use crate::engine::index_state::{span_marks, IndexStateMap};
use crate::engine::ranges::ActiveRange;
use crate::engine::runtime::WorkerControl;
use crate::engine::scaler::Scaler;
use crate::engine::worker::{
    after_chunk, AfterChunk, ChunkOutcome, LiveWorker, PendingWrite, RangeStep, RetryOutcome, StreamEnd, WorkerStep,
};

verus! {

/// A worker that is given a range goes on where the range stopped: its next
/// request begins at the range's cursor and ends with the range's last byte.
/// Where nothing is missing, the range is finished instead.
pub proof fn law_work_goes_on_at_the_cursor(
    w: &mut LiveWorker,
    next: &mut LiveWorker,
    c: &Coordinator,
    d: &mut Coordinator,
    i: usize,
    go_on: bool,
    step: WorkerStep,
)
    requires
        i < c@.ranges.len(),
        old(w).wf(c@),
        old(w).pending.data@.len() == 0,
        call_ensures(LiveWorker::work_received, (w, c, Some(i)), go_on),
        *old(next) == *final(w),
        *old(d) == *c,
        call_ensures(LiveWorker::next_step, (next, d, false), step),
    ensures
        go_on,
        ({
            let r = c@.ranges[i as int];
            &&& final(w).local_cursor == r.cursor
            &&& final(w).current == Some(i)
            &&& r.cursor < r.end ==> {
                &&& step == (WorkerStep::Send { range: i, first: r.cursor, last: (r.end - 1) as u64 })
                &&& final(d)@.ranges == c@.ranges
                &&& final(next).current == Some(i)
                &&& final(next).local_cursor == r.cursor
            }
            &&& r.cursor >= r.end ==> {
                &&& step == WorkerStep::Again
                &&& final(next).current is None
                &&& final(d)@.ranges == c@.ranges.update(i as int, ActiveRange { status: 2, ..r })
            }
        }),
{
    assert(final(d)@.ranges =~= final(d)@.ranges);
}

/// A range that was asked for ahead of time is taken up where it stopped.
pub proof fn law_prefetched_work_goes_on_at_the_cursor(
    w: &mut LiveWorker,
    c: &mut Coordinator,
    i: usize,
    step: WorkerStep,
)
    requires
        old(w).wf(old(c)@),
        old(w).pending.data@.len() == 0,
        old(w).current is None,
        old(w).prefetched == Some(i),
        call_ensures(LiveWorker::next_step, (w, c, false), step),
    ensures
        ({
            let r = old(c)@.ranges[i as int];
            &&& final(w).prefetched is None
            &&& r.cursor < r.end ==> step == (WorkerStep::Send {
                range: i,
                first: r.cursor,
                last: (r.end - 1) as u64,
            }) && final(w).current == Some(i) && final(w).local_cursor == r.cursor
            &&& r.cursor >= r.end ==> step == WorkerStep::Again
        }),
{
}

/// A worker that halts ends at once and holds on to what it has; one that has
/// nothing asks for work.
pub proof fn law_halted_workers_end(w: &mut LiveWorker, c: &mut Coordinator, halted: bool, step: WorkerStep)
    requires
        old(w).wf(old(c)@),
        old(w).pending.data@.len() == 0,
        call_ensures(LiveWorker::next_step, (w, c, halted), step),
    ensures
        step == WorkerStep::Stop <==> halted,
        halted ==> final(w)@ == old(w)@ && final(c)@ == old(c)@,
        !halted && old(w).current is None && old(w).prefetched is None ==> step == WorkerStep::AskForWork,
        step matches WorkerStep::Send { range, first, last } ==> first <= last && last < final(c)@.ranges[range as int].end,
{
}

/// A chunk goes where the worker is, and no further than the end of its range:
/// what fits is taken, in order, and what is taken is what the cursor and the
/// counters move by. Every other range stays as it is.
pub proof fn law_chunk_fills_the_range(
    w: &mut LiveWorker,
    c: &mut Coordinator,
    control: &mut WorkerControl,
    downloaded: &mut u64,
    range: usize,
    chunk: &[u8],
    now_ms: u64,
    outcome: ChunkOutcome,
)
    requires
        old(w).wf(old(c)@),
        range < old(c)@.ranges.len(),
        old(c).index_state.wf(),
        call_ensures(LiveWorker::take_chunk, (w, c, control, downloaded, range, chunk, now_ms), outcome),
        *old(downloaded) + chunk@.len() <= u64::MAX,
        old(control).transferred_bytes + chunk@.len() <= u64::MAX,
    ensures
        ({
            let r = old(c)@.ranges[range as int];
            let s = final(c)@.ranges[range as int];
            let at = old(w).local_cursor;
            &&& s.byte_start == r.byte_start && s.end == r.end && s.status == r.status && s.assigned_to
                == r.assigned_to && s.id == r.id
            &&& forall|j: int|
                0 <= j < old(c)@.ranges.len() && j != range ==> #[trigger] final(c)@.ranges[j]
                    == old(c)@.ranges[j]
            &&& outcome == ChunkOutcome::PastEnd <==> at >= r.end
            &&& at >= r.end ==> final(c)@.ranges == old(c)@.ranges && *final(downloaded) == *old(downloaded)
            &&& outcome matches ChunkOutcome::Taken(n) ==> {
                &&& n <= chunk@.len() && at + n <= r.end
                &&& n == chunk@.len() || at + n == r.end
                &&& final(w).local_cursor == at + n
                &&& s.cursor == at + n
                &&& final(w).pending.data@ == old(w).pending.data@ + chunk@.subrange(0, n as int)
                &&& old(w).pending.data@.len() == 0 && n > 0 ==> final(w).pending.start_offset == at
                &&& final(w).pending.data@.len() > 0 ==> final(w).pending.start_offset + final(w).pending.data@.len() == at + n
                &&& *final(downloaded) == *old(downloaded) + n
                &&& final(control).transferred_bytes == old(control).transferred_bytes + n
            }
        }),
{
    assert(chunk.len() == chunk@.len());
    if old(w).local_cursor < old(c)@.ranges[range as int].end {
        let n = final(w).local_cursor - old(w).local_cursor;
        assert(chunk@.take(n) =~= chunk@.subrange(0, n));
    }
}

/// A slice is marked once it is reached and passed, or reached at the end of
/// the file; what was marked stays marked.
pub proof fn law_slices_are_marked_when_passed(m: &mut IndexStateMap, from: u64, to: u64, i: int)
    requires
        old(m).wf(),
        from <= to <= old(m).total_size,
        call_ensures(IndexStateMap::mark_completed_span, (m, from, to), ()),
    ensures
        old(m).marked(i) ==> final(m).marked(i),
        final(m).marked(i) && !old(m).marked(i) ==> {
            &&& 0 <= i
            &&& from < (i + 1) * 1048576
            &&& (i + 1) * 1048576 <= to || (to == old(m).total_size && i * 1048576 < to)
        },
        from < to && i * 1048576 <= from < (i + 1) * 1048576 <= to ==> final(m).marked(i),
        from < to && from <= i * 1048576 && (i + 1) * 1048576 <= to ==> final(m).marked(i),
        from < to && to == old(m).total_size && from <= i * 1048576 < to ==> final(m).marked(i),
        final(m).total_size == old(m).total_size,
{
    let t = old(m).total_size as int;
    assert(span_marks(t, from as int, to as int, i) ==> true);
    assert(final(m).marked(i) <==> old(m).marked(i) || span_marks(t, from as int, to as int, i));
}

/// A stream that ended finishes the range only where nothing is missing of
/// it; else the worker keeps the range, at its place.
pub proof fn law_only_whole_ranges_are_finished(w: &mut LiveWorker, c: &mut Coordinator, range: usize, end: StreamEnd)
    requires
        old(w).wf(old(c)@),
        range < old(c)@.ranges.len(),
        call_ensures(LiveWorker::stream_ended, (w, c, range), end),
    ensures
        ({
            let r = old(c)@.ranges[range as int];
            &&& end == StreamEnd::Complete <==> old(w).local_cursor >= r.end
            &&& end == StreamEnd::Complete ==> {
                &&& final(c)@.ranges == old(c)@.ranges.update(range as int, ActiveRange { status: 2, ..r })
                &&& final(w).current is None
            }
            &&& end != StreamEnd::Complete ==> {
                &&& final(c)@.ranges == old(c)@.ranges
                &&& final(w).current == old(w).current
                &&& final(w).local_cursor == old(w).local_cursor
            }
            &&& end == StreamEnd::Empty <==> old(w).local_cursor < r.end && !old(w).made_progress
            &&& old(w).made_progress ==> final(w).consecutive_failures == 0
        }),
{
}

/// A failed request is tried again at most eight times in a row, and not at
/// all where it is hopeless; each try counts, and the range stays where it is
/// unless workers are to be fewer: then it is free for any other from the
/// point it reached, and this worker ends.
pub proof fn law_retries_are_limited(
    w: &mut LiveWorker,
    c: &mut Coordinator,
    scaler: &mut Scaler,
    control: &mut WorkerControl,
    range: usize,
    start: u64,
    end: u64,
    reason: &str,
    hint: RetryHint,
    outcome: RetryOutcome,
)
    requires
        old(w).wf(old(c)@),
        range < old(c)@.ranges.len(),
        call_ensures(
            LiveWorker::handle_range_retry,
            (w, c, scaler, control, range, start, end, reason, hint),
            outcome,
        ),
    ensures
        outcome is Fail <==> hint == RetryHint::Abort || old(w).consecutive_failures >= 8,
        outcome is Fail ==> final(w)@ == old(w)@ && final(c)@.ranges == old(c)@.ranges && *final(control) == *old(control),
        outcome matches RetryOutcome::Wait(ms) ==> {
            &&& final(w).consecutive_failures == old(w).consecutive_failures + 1
            &&& final(w).local_cursor == old(w).local_cursor
            &&& match hint {
                RetryHint::Immediate => ms == 0,
                RetryHint::Backoff(d) => ms == d,
                RetryHint::ShrinkRange(d) => ms == d,
                RetryHint::ReduceWorkers(d) => ms == d,
                RetryHint::Abort => false,
            }
            &&& if hint is ReduceWorkers {
                let r = final(c)@.ranges[range as int];
                &&& final(control).stop_requested
                &&& r.assigned_to == u32::MAX && r.status == 0 && r.cursor == start
                &&& r.byte_start == old(c)@.ranges[range as int].byte_start && r.end
                    == old(c)@.ranges[range as int].end
                &&& final(scaler).skip_growth_sample
            } else {
                &&& final(c)@.ranges == old(c)@.ranges
                &&& *final(control) == *old(control)
                &&& *final(scaler) == *old(scaler)
            }
        },
{
}

/// A range that is given back is free for any connection, from the point that
/// was reached, and otherwise as it was.
pub proof fn law_given_back_ranges_are_free(w: &mut LiveWorker, c: &mut Coordinator, range: usize)
    requires
        old(w).wf(old(c)@),
        range < old(c)@.ranges.len(),
        call_ensures(LiveWorker::give_back, (w, c, range), ()),
    ensures
        final(w).current is None,
        final(c)@.ranges == old(c)@.ranges.update(
            range as int,
            ActiveRange {
                cursor: old(w).local_cursor,
                assigned_to: u32::MAX,
                status: 0,
                ..old(c)@.ranges[range as int]
            },
        ),
{
}

/// A worker that halts keeps no range: what it had in hand is free from the
/// point it reached, what it had asked for ahead of time is free as it was.
pub proof fn law_a_halt_frees_every_range(w: &mut LiveWorker, c: &mut Coordinator)
    requires
        old(w).wf(old(c)@),
        old(w).current is None || old(w).prefetched is None || old(w).current != old(w).prefetched,
        call_ensures(LiveWorker::halt, (w, c), ()),
    ensures
        final(w).current is None && final(w).prefetched is None,
        final(c)@.ranges.len() == old(c)@.ranges.len(),
        forall|j: int|
            0 <= j < old(c)@.ranges.len() ==> {
                let r = old(c)@.ranges[j];
                #[trigger] final(c)@.ranges[j] == if old(w).current == Some(j as usize) {
                    ActiveRange { cursor: old(w).local_cursor, assigned_to: u32::MAX, status: 0, ..r }
                } else if old(w).prefetched == Some(j as usize) {
                    ActiveRange { assigned_to: u32::MAX, status: 0, ..r }
                } else {
                    r
                }
            },
{
    assert(old(c).dl_ranges.len() == old(c)@.ranges.len());
}

/// The next range is asked for once, when little enough is left of this one,
/// and never again after the answer was that there is none.
pub proof fn law_prefetching_asks_once(
    w: &mut LiveWorker,
    c: &mut Coordinator,
    remaining: u64,
    trigger: u64,
    ask: bool,
    again: &mut LiveWorker,
    d: &mut Coordinator,
    more: bool,
)
    requires
        old(w).wf(old(c)@),
        call_ensures(LiveWorker::start_prefetch, (w, c, remaining, trigger), ask),
        *old(again) == *final(w),
        old(again).wf(old(d)@),
        call_ensures(LiveWorker::start_prefetch, (again, d, remaining, trigger), more),
    ensures
        remaining > trigger ==> !ask,
        remaining <= trigger && !old(w).prefetch_pending && old(w).prefetched is None && !old(w).no_more_work ==> ask,
        ask ==> !more,
        old(w).no_more_work ==> !ask && !more,
        final(c)@.ranges == old(c)@.ranges,
{
}

/// What was asked for ahead of time is kept, or it is kept in mind that there
/// is nothing more.
pub proof fn law_prefetched_work_is_kept(w: &mut LiveWorker, c: &mut Coordinator, work: Option<usize>)
    requires
        old(w).wf(old(c)@),
        work matches Some(i) ==> i < old(c)@.ranges.len(),
        call_ensures(LiveWorker::prefetch_received, (w, c, work), ()),
    ensures
        final(w).prefetched == work,
        !final(w).prefetch_pending,
        work is None ==> final(w).no_more_work,
        work is Some ==> final(w).no_more_work == old(w).no_more_work,
        final(w).current == old(w).current && final(w).local_cursor == old(w).local_cursor,
        final(c)@.ranges == old(c)@.ranges,
{
}

/// What is collected is written once, where it belongs, and whole.
pub proof fn law_collected_bytes_are_written_once(
    p: &mut PendingWrite,
    r: Option<(u64, Vec<u8>)>,
    q: &mut PendingWrite,
    again: Option<(u64, Vec<u8>)>,
)
    requires
        call_ensures(PendingWrite::take, (p,), r),
        *old(q) == *final(p),
        call_ensures(PendingWrite::take, (q,), again),
    ensures
        r is None <==> old(p).data@.len() == 0,
        r matches Some((at, data)) ==> at == old(p).start_offset && data@ == old(p).data@,
        again is None,
{
}

/// Bytes that follow one another are collected as one piece.
pub proof fn law_bytes_are_collected_in_order(
    p: &mut PendingWrite,
    a: &[u8],
    at: u64,
    q: &mut PendingWrite,
    b: &[u8],
    bt: u64,
)
    requires
        old(p).data@.len() == 0,
        a@.len() > 0,
        call_ensures(PendingWrite::append_pending_write, (p, at, a), ()),
        *old(q) == *final(p),
        call_ensures(PendingWrite::append_pending_write, (q, bt, b), ()),
    ensures
        final(p).start_offset == at && final(p).data@ == a@,
        final(q).start_offset == at && final(q).data@ == a@ + b@,
{
    assert(Seq::<u8>::empty() + a@ =~= a@);
    assert(old(p).data@ =~= Seq::<u8>::empty());
}

/// A worker whose download halts, or that is told to end, gives its range
/// back and has everything written; one whose chunk went beyond its range lets
/// go of it; any other goes on.
pub proof fn law_a_told_worker_gives_back(halted: bool, told: bool, taken: usize, len: usize, r: AfterChunk)
    requires
        taken <= len,
        call_ensures(after_chunk, (halted, told, taken, len), r),
    ensures
        r.range == RangeStep::GiveBack <==> halted || told,
        r.range == RangeStep::GoOn <==> !halted && !told && taken == len,
        halted ==> !r.look_ahead,
        !halted ==> r.look_ahead,
        r.range != RangeStep::GoOn ==> r.write_all,
        r.range == RangeStep::GoOn ==> !r.write_all,
{
}

} // verus!
