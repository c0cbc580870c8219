//! What holds of the counters: each event counts once, where it belongs, and
//! nowhere else.

use vstd::prelude::*;
use crate::engine::coordinator::{BorrowKind, Coordinator};
use crate::engine::h3_worker::{H3Attempt, H3Step, H3Worker};
use crate::engine::helpers::RetryHint;
use crate::engine::metrics::SchedulerMetrics;
use crate::engine::runtime::WorkerControl;
use crate::engine::scaler::{RequestKind, Scaler};
use crate::engine::types::ProtocolFamily;
use crate::engine::worker::{LiveWorker, PendingWrite, RetryOutcome, StartupProbe, StreamEnd, WorkerStep};
use crate::numerals::decimal;

verus! {

/// A counter is more by `n`, or full.
pub open spec fn is_more_by(before: u64, after: u64, n: int) -> bool {
    if before + n <= u64::MAX {
        after == before + n
    } else {
        after == u64::MAX
    }
}

/// A range that is cut counts as borrowed, with its bytes, and as what it was
/// cut for; one that is not counts as nothing.
pub proof fn law_cuts_are_counted(c: &mut Coordinator, idx: usize, id: u32, kind: BorrowKind, work: Option<usize>)
    requires
        old(c)@.schedulable(),
        idx < old(c)@.ranges.len(),
        call_ensures(Coordinator::split_active_range, (c, idx, id, kind), work),
    ensures
        ({
            let m = old(c)@.metrics;
            let n = final(c)@.metrics;
            &&& work is None ==> n == m
            &&& work matches Some(w) ==> {
                let taken = final(c)@.ranges[w as int];
                &&& is_more_by(m.borrow_assignments, n.borrow_assignments, 1)
                &&& is_more_by(m.bytes_borrowed, n.bytes_borrowed, taken.end - taken.byte_start)
                &&& is_more_by(m.straggler_splits, n.straggler_splits, if kind == BorrowKind::Straggler {
                    1
                } else {
                    0
                })
                &&& is_more_by(m.tail_splits, n.tail_splits, if kind == BorrowKind::Tail {
                    1
                } else {
                    0
                })
                &&& n == (SchedulerMetrics {
                    borrow_assignments: n.borrow_assignments,
                    bytes_borrowed: n.bytes_borrowed,
                    straggler_splits: n.straggler_splits,
                    tail_splits: n.tail_splits,
                    ..m
                })
            }
        }),
{
}

/// A request that is sent counts, and so does a range that was asked for ahead
/// of time when it is taken up.
pub proof fn law_steps_are_counted(w: &mut LiveWorker, c: &mut Coordinator, halted: bool, step: WorkerStep)
    requires
        old(w).wf(old(c)@),
        old(w).pending.data@.len() == 0,
        call_ensures(LiveWorker::next_step, (w, c, halted), step),
    ensures
        ({
            let m = old(c)@.metrics;
            let n = final(c)@.metrics;
            let taken_up = !halted && old(w).current is None && old(w).prefetched is Some;
            &&& is_more_by(m.http_requests, n.http_requests, if step is Send {
                1
            } else {
                0
            })
            &&& is_more_by(m.prefetch_hits, n.prefetch_hits, if taken_up {
                1
            } else {
                0
            })
            &&& n == (SchedulerMetrics { http_requests: n.http_requests, prefetch_hits: n.prefetch_hits, ..m })
        }),
{
    assert(old(w)@.current == old(w).current);
    assert(old(w)@.prefetched == old(w).prefetched);
}

/// What is asked for ahead of time counts when it is asked for, and again when
/// it comes; the largest distance at which it is asked for is kept.
pub proof fn law_prefetches_are_counted(
    w: &mut LiveWorker,
    c: &mut Coordinator,
    left: u64,
    trigger: u64,
    ask: bool,
    v: &mut LiveWorker,
    d: &mut Coordinator,
    work: Option<usize>,
)
    requires
        old(w).wf(old(c)@),
        call_ensures(LiveWorker::start_prefetch, (w, c, left, trigger), ask),
        old(v).wf(old(d)@),
        work matches Some(i) ==> i < old(d)@.ranges.len(),
        call_ensures(LiveWorker::prefetch_received, (v, d, work), ()),
    ensures
        ({
            let m = old(c)@.metrics;
            let n = final(c)@.metrics;
            &&& is_more_by(m.prefetch_requests, n.prefetch_requests, if ask {
                1
            } else {
                0
            })
            &&& n.max_prefetch_trigger_bytes >= trigger && n.max_prefetch_trigger_bytes >= m.max_prefetch_trigger_bytes
            &&& n.max_prefetch_trigger_bytes == trigger || n.max_prefetch_trigger_bytes == m.max_prefetch_trigger_bytes
            &&& n == (SchedulerMetrics {
                prefetch_requests: n.prefetch_requests,
                max_prefetch_trigger_bytes: n.max_prefetch_trigger_bytes,
                ..m
            })
        }),
        ({
            let m = old(d)@.metrics;
            let n = final(d)@.metrics;
            &&& is_more_by(m.prefetch_ready, n.prefetch_ready, if work is Some {
                1
            } else {
                0
            })
            &&& n == (SchedulerMetrics { prefetch_ready: n.prefetch_ready, ..m })
        }),
{
}

/// A failure counts as a retry, with what is waited; what finally fails tells
/// the range, how often it was tried, where, and why.
pub proof fn law_retries_are_counted(
    w: &mut LiveWorker,
    c: &mut Coordinator,
    scaler: &mut Scaler,
    control: &mut WorkerControl,
    range: usize,
    start: u64,
    end: u64,
    reason: &str,
    hint: RetryHint,
    outcome: RetryOutcome,
)
    requires
        old(w).wf(old(c)@),
        range < old(c)@.ranges.len(),
        call_ensures(
            LiveWorker::handle_range_retry,
            (w, c, scaler, control, range, start, end, reason, hint),
            outcome,
        ),
    ensures
        ({
            let m = old(c)@.metrics;
            let n = final(c)@.metrics;
            &&& is_more_by(m.retry_attempts, n.retry_attempts, 1)
            &&& outcome is Fail ==> n.retry_wait_ms == m.retry_wait_ms
            &&& outcome matches RetryOutcome::Wait(ms) ==> is_more_by(m.retry_wait_ms, n.retry_wait_ms, ms as int)
            &&& n == (SchedulerMetrics { retry_attempts: n.retry_attempts, retry_wait_ms: n.retry_wait_ms, ..m })
        }),
        outcome matches RetryOutcome::Fail(text) ==> text@ == "range#"@ + decimal(
            old(c)@.ranges[range as int].id as nat,
        ) + " failed after "@ + decimal(old(w).consecutive_failures as nat) + " retries at bytes "@ + decimal(
            start as nat,
        ) + ".."@ + decimal(end as nat) + ": "@ + reason@,
        outcome is Wait && hint is ReduceWorkers && old(scaler).slow_start_remaining < u32::MAX
            ==> final(scaler).slow_start_remaining == old(scaler).slow_start_remaining + 1,
{
}

/// Only a range that is complete counts as completed.
pub proof fn law_completed_ranges_are_counted(w: &mut LiveWorker, c: &mut Coordinator, range: usize, end: StreamEnd)
    requires
        call_ensures(LiveWorker::stream_ended, (w, c, range), end),
    ensures
        ({
            let m = old(c)@.metrics;
            let n = final(c)@.metrics;
            &&& is_more_by(m.completed_ranges, n.completed_ranges, if end == StreamEnd::Complete {
                1
            } else {
                0
            })
            &&& n == (SchedulerMetrics { completed_ranges: n.completed_ranges, ..m })
        }),
{
}

/// The largest buffer is kept, and the times of a start are added up once.
pub proof fn law_starts_are_added_up(
    p: &mut PendingWrite,
    target: usize,
    a: &mut SchedulerMetrics,
    s: &mut StartupProbe,
    waited: u64,
    b: &mut SchedulerMetrics,
    t: &mut StartupProbe,
    setup: u64,
    d: &mut SchedulerMetrics,
    u: &mut StartupProbe,
    first: u64,
    total: u64,
    e: &mut SchedulerMetrics,
    is_first: bool,
)
    requires
        call_ensures(PendingWrite::update_pending_write_target, (p, target, a), ()),
        call_ensures(StartupProbe::note_first_assignment, (s, waited, b), ()),
        call_ensures(StartupProbe::note_first_request_setup, (t, setup, d), ()),
        call_ensures(StartupProbe::note_first_byte, (u, first, total, e), is_first),
    ensures
        final(a).max_write_buffer_target_bytes >= target && final(a).max_write_buffer_target_bytes
            >= old(a).max_write_buffer_target_bytes,
        final(a).max_write_buffer_target_bytes == target || *final(a) == *old(a),
        is_more_by(
            old(b).startup_first_assignment_wait_ms,
            final(b).startup_first_assignment_wait_ms,
            if old(s).first_assignment_wait_ms is None {
                waited as int
            } else {
                0
            },
        ),
        is_more_by(
            old(d).startup_first_request_setup_ms,
            final(d).startup_first_request_setup_ms,
            if old(t).first_request_setup_ms is None {
                setup as int
            } else {
                0
            },
        ),
        is_more_by(
            old(e).startup_first_byte_ms,
            final(e).startup_first_byte_ms,
            if old(u).first_byte_ms is None {
                first as int
            } else {
                0
            },
        ),
        is_more_by(
            old(e).startup_total_to_first_byte_ms,
            final(e).startup_total_to_first_byte_ms,
            if old(u).first_byte_ms is None {
                total as int
            } else {
                0
            },
        ),
{
}

/// A request counts as fresh or as reused, with its protocol; only a fresh one
/// adds its handshake.
pub proof fn law_requests_count_by_kind(
    s: &mut Scaler,
    kind: RequestKind,
    protocol: ProtocolFamily,
    probe: bool,
    cost: u64,
    adjusted: u64,
    m: &mut SchedulerMetrics,
)
    requires
        call_ensures(Scaler::record_request_classification, (s, kind, protocol, probe, cost, adjusted, m), ()),
    ensures
        ({
            let a = *old(m);
            let b = *final(m);
            let fresh: int = if kind == RequestKind::Fresh {
                1
            } else {
                0
            };
            let h1: int = if protocol == ProtocolFamily::Http1 {
                1
            } else {
                0
            };
            let h2: int = if protocol == ProtocolFamily::Http2 {
                1
            } else {
                0
            };
            &&& is_more_by(a.fresh_requests, b.fresh_requests, fresh)
            &&& is_more_by(a.reused_requests, b.reused_requests, 1 - fresh)
            &&& is_more_by(a.http1_fresh_requests, b.http1_fresh_requests, if fresh == 1 {
                h1
            } else {
                0
            })
            &&& is_more_by(a.http2_fresh_requests, b.http2_fresh_requests, if fresh == 1 {
                h2
            } else {
                0
            })
            &&& is_more_by(a.http1_reused_requests, b.http1_reused_requests, if fresh == 0 {
                h1
            } else {
                0
            })
            &&& is_more_by(a.http2_reused_requests, b.http2_reused_requests, if fresh == 0 {
                h2
            } else {
                0
            })
            &&& fresh == 0 ==> b.fresh_handshake_ms == a.fresh_handshake_ms && b.http1_fresh_handshake_ms
                == a.http1_fresh_handshake_ms && b.http2_fresh_handshake_ms == a.http2_fresh_handshake_ms
            &&& b.http_requests == a.http_requests && b.direct_assignments == a.direct_assignments
        }),
{
}

/// A range that is handed out as it stands counts as such.
pub proof fn law_work_is_counted(c: &mut Coordinator, id: u32, work: Option<usize>)
    requires
        old(c)@.schedulable(),
        call_ensures(Coordinator::get_work, (c, id), work),
    ensures
        ({
            let m = old(c)@.metrics;
            let n = final(c)@.metrics;
            &&& work is None ==> n == m
            &&& work matches Some(i) ==> {
                &&& i < old(c)@.ranges.len() ==> is_more_by(m.direct_assignments, n.direct_assignments, 1)
                    && n.borrow_assignments == m.borrow_assignments && n.bytes_borrowed == m.bytes_borrowed
                &&& i >= old(c)@.ranges.len() ==> is_more_by(m.borrow_assignments, n.borrow_assignments, 1)
                    && n.direct_assignments == m.direct_assignments
            }
        }),
{
    let s = old(c)@;
    if crate::engine::coordinator::none_from(s.ranges, s.next_unassigned, crate::engine::coordinator::waiting()) {
        if crate::engine::coordinator::none_from(s.ranges, 0, crate::engine::coordinator::resumable()) {
        } else {
            let i = choose|i: int| #[trigger]
                crate::engine::coordinator::is_first(s.ranges, 0, crate::engine::coordinator::resumable(), i);
            assert(crate::engine::coordinator::is_first(s.ranges, 0, crate::engine::coordinator::resumable(), i));
        }
    } else {
        let i = choose|i: int| #[trigger]
            crate::engine::coordinator::is_first(
                s.ranges,
                s.next_unassigned,
                crate::engine::coordinator::waiting(),
                i,
            );
        assert(crate::engine::coordinator::is_first(
            s.ranges,
            s.next_unassigned,
            crate::engine::coordinator::waiting(),
            i,
        ));
    }
}

/// A request over HTTP/3 counts when it is sent; the time to its first byte is
/// added up once.
pub proof fn law_http3_requests_are_counted(
    w: &mut H3Worker,
    c: &mut Coordinator,
    halted: bool,
    step: H3Step,
    a: &mut H3Attempt,
    elapsed: u64,
    m: &mut SchedulerMetrics,
)
    requires
        old(w).wf(old(c)@),
        old(c)@.schedulable(),
        call_ensures(H3Worker::next_step, (w, c, halted), step),
        call_ensures(H3Attempt::note_first_byte, (a, elapsed, m), ()),
    ensures
        step is Send ==> is_more_by(old(c)@.metrics.http_requests, final(c)@.metrics.http_requests, 1)
            && final(c)@.metrics == (SchedulerMetrics {
            http_requests: final(c)@.metrics.http_requests,
            ..old(c)@.metrics
        }),
        step is Stop || step is AskForWork ==> final(c)@ == old(c)@,
        is_more_by(old(m).http_ttfb_ms, final(m).http_ttfb_ms, if old(a).first_byte_ms is None {
            elapsed as int
        } else {
            0
        }),
        final(a).first_byte_ms == (if old(a).first_byte_ms is None {
            Some(elapsed)
        } else {
            old(a).first_byte_ms
        }),
        *final(m) == (SchedulerMetrics { http_ttfb_ms: final(m).http_ttfb_ms, ..*old(m) }),
{
}

} // verus!
