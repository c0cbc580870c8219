//! What one connection does, step by step.

use vstd::prelude::*;
use vstd::slice::slice_subrange;
use crate::engine::challenge::{body_kind, classify_response_body, ChallengeKind};
use crate::engine::coordinator::{CoordState, Coordinator};
use crate::engine::coordinator_laws::{covered, divides};
use crate::engine::helpers::{RetryHint, MAX_RANGE_RETRIES, WRITE_BUFFER_MIN_BYTES};
use crate::engine::index_state::{slice_marked, span_marks};
use crate::engine::metrics::SchedulerMetrics;
use crate::engine::ranges::{
    lemma_sums_update, total_done, ActiveRange, RANGE_STATUS_FINISHED, RANGE_STATUS_PENDING, UNASSIGNED_CONNECTION,
};
use crate::engine::runtime::WorkerControl;
use crate::engine::scaler::{plus, Scaler};
use crate::engine::transport::counted;
use crate::numerals::{decimal, decimal_string};
use crate::text::{contains, lower, mentions, owned, same, to_lower};
use crate::units::{max_int, max_usize, min_int, min_u64, saturated};

verus! {

/// How much a dry run advances at a time.
pub const DRY_RUN_STEP_BYTES: u64 = 262144;

pub const DRY_RUN_STEP_DELAY_MS: u64 = 4;

/// Bytes that were received and are not written yet.
#[derive(Debug)]
pub struct PendingWrite {
    pub start_offset: u64,
    pub data: Vec<u8>,
    pub target_bytes: usize,
}

impl PendingWrite {
    /// The offset that follows the last byte.
    pub open spec fn end(&self) -> int {
        self.start_offset + self.data@.len()
    }

    pub fn new() -> (r: PendingWrite)
        ensures
            r.start_offset == 0,
            r.data@.len() == 0,
            r.target_bytes == WRITE_BUFFER_MIN_BYTES,
    {
        PendingWrite { start_offset: 0, data: Vec::new(), target_bytes: WRITE_BUFFER_MIN_BYTES }
    }

    /// Adds `data`, which belongs at `offset`.
    pub fn append_pending_write(&mut self, offset: u64, data: &[u8])
        ensures
            final(self).data@ == old(self).data@ + data@,
            final(self).start_offset == if old(self).data@.len() == 0 {
                offset
            } else {
                old(self).start_offset
            },
            final(self).target_bytes == old(self).target_bytes,
    {
        if self.data.len() == 0 {
            self.start_offset = offset;
        }
        self.data.extend_from_slice(data);
    }

    /// Takes what is to be written, and where.
    pub fn take(&mut self) -> (r: Option<(u64, Vec<u8>)>)
        ensures
            final(self).data@.len() == 0,
            final(self).target_bytes == old(self).target_bytes,
            final(self).start_offset == old(self).start_offset,
            match r {
                Some((offset, data)) => offset == old(self).start_offset && data@ == old(self).data@ && data@.len() > 0,
                None => old(self).data@.len() == 0,
            },
    {
        if self.data.len() == 0 {
            return None;
        }
        let mut data: Vec<u8> = Vec::new();
        data.append(&mut self.data);
        assert(data@ =~= old(self).data@);
        Some((self.start_offset, data))
    }

    /// Whether there is enough to be written.
    pub fn is_due(&self) -> (r: bool)
        ensures
            r == (self.data@.len() >= self.target_bytes),
    {
        self.data.len() >= self.target_bytes
    }

    /// Sets how much is collected before it is written, and notes the most.
    pub fn update_pending_write_target(&mut self, target: usize, metrics: &mut SchedulerMetrics)
        ensures
            *final(self) == (PendingWrite { target_bytes: target, ..*old(self) }),
            *final(metrics) == (SchedulerMetrics {
                max_write_buffer_target_bytes: max_int(
                    old(metrics).max_write_buffer_target_bytes as int,
                    target as int,
                ) as u64,
                ..*old(metrics)
            }),
    {
        SchedulerMetrics::update_max(&mut metrics.max_write_buffer_target_bytes, target as u64);
        self.target_bytes = target;
    }

    pub fn reset_pending_write_target(&mut self)
        ensures
            *final(self) == (PendingWrite { target_bytes: WRITE_BUFFER_MIN_BYTES, ..*old(self) }),
    {
        self.target_bytes = WRITE_BUFFER_MIN_BYTES;
    }

    /// What room an empty buffer shrinks to, where it has more than twice
    /// the room that it needs.
    pub fn trimmed_capacity(&self, capacity: usize) -> (r: Option<usize>)
        ensures
            r == ({
                let target = max_int(self.target_bytes as int, WRITE_BUFFER_MIN_BYTES as int);
                if self.data@.len() == 0 && capacity > min_int(target * 2, usize::MAX as int) {
                    Some(target as usize)
                } else {
                    None
                }
            }),
    {
        let target: usize = max_usize(self.target_bytes, WRITE_BUFFER_MIN_BYTES);
        let doubled: usize = match target.checked_mul(2) {
            Some(v) => v,
            None => usize::MAX,
        };
        if self.data.len() == 0 && capacity > doubled {
            Some(target)
        } else {
            None
        }
    }
}

/// What a worker does next.
#[derive(Debug, Clone, Copy, PartialEq, Eq, Structural)]
pub enum WorkerStep {
    /// It ends.
    Stop,
    /// It asks for work.
    AskForWork,
    /// It looks again.
    Again,
    /// It asks the server for the bytes from `first` to `last`.
    Send { range: usize, first: u64, last: u64 },
}

/// How a failed request is dealt with.
#[derive(Debug)]
pub enum RetryOutcome {
    /// It is tried again after so many milliseconds.
    Wait(u64),
    /// The worker fails, with a message.
    Fail(String),
}

/// How a stream came to its end.
#[derive(Debug, Clone, Copy, PartialEq, Eq, Structural)]
pub enum StreamEnd {
    /// The range is complete.
    Complete,
    /// Some of it arrived.
    Partial,
    /// None of it arrived.
    Empty,
}

/// What was done with a chunk.
#[derive(Debug, Clone, Copy, PartialEq, Eq, Structural)]
pub enum ChunkOutcome {
    /// The range had been cut before the chunk: none of it was taken.
    PastEnd,
    /// So many bytes of it were taken.
    Taken(usize),
}

/// The state of a worker that downloads.
#[derive(Debug)]
pub struct LiveWorker {
    pub connection_id: u32,
    pub current: Option<usize>,
    pub prefetched: Option<usize>,
    pub prefetch_pending: bool,
    pub no_more_work: bool,
    pub local_cursor: u64,
    pub range_start_cursor: u64,
    pub consecutive_failures: u32,
    pub made_progress: bool,
    pub pending: PendingWrite,
}

/// The state of a worker, without what it has to write.
#[verifier::ext_equal]
pub struct WorkerView {
    pub connection_id: u32,
    pub current: Option<usize>,
    pub prefetched: Option<usize>,
    pub prefetch_pending: bool,
    pub no_more_work: bool,
    pub local_cursor: u64,
    pub range_start_cursor: u64,
    pub failures: u32,
    pub made_progress: bool,
}

/// `c` with range `i` replaced.
pub open spec fn with_range(c: CoordState, i: int, r: ActiveRange) -> CoordState {
    CoordState { ranges: c.ranges.update(i, r), ..c }
}

/// `c` with other counters.
pub open spec fn with_metrics(c: CoordState, m: SchedulerMetrics) -> CoordState {
    CoordState { metrics: m, ..c }
}

/// What goes wrong with a range after too many failures.
pub open spec fn failure_text(range_id: u64, failures: u32, start: u64, end: u64, reason: Seq<char>) -> Seq<char> {
    "range#"@ + decimal(range_id as nat) + " failed after "@ + decimal(failures as nat) + " retries at bytes "@
        + decimal(start as nat) + ".."@ + decimal(end as nat) + ": "@ + reason
}

/// How long `hint` waits.
pub open spec fn hint_delay(hint: RetryHint) -> u64 {
    match hint {
        RetryHint::Immediate => 0,
        RetryHint::Backoff(ms) => ms,
        RetryHint::ReduceWorkers(ms) => ms,
        RetryHint::ShrinkRange(ms) => ms,
        RetryHint::Abort => 0,
    }
}

fn failure_message(range_id: u64, failures: u32, start: u64, end: u64, reason: &str) -> (r: String)
    ensures
        r@ == failure_text(range_id, failures, start, end, reason@),
{
    let mut r: String = owned("range#");
    let id: String = decimal_string(range_id);
    let count: String = decimal_string(failures as u64);
    let from: String = decimal_string(start);
    let to: String = decimal_string(end);
    r.append(id.as_str());
    r.append(" failed after ");
    r.append(count.as_str());
    r.append(" retries at bytes ");
    r.append(from.as_str());
    r.append("..");
    r.append(to.as_str());
    r.append(": ");
    r.append(reason);
    r
}

/// `after` is the state with the cursor of a range moved from `at` to
/// `new_pos`, and with what lies between marked.
pub open spec fn advanced(
    before: CoordState,
    after: CoordState,
    range: int,
    at: u64,
    new_pos: u64,
    now_ms: u64,
) -> bool {
    &&& after == (CoordState {
        marks: after.marks,
        ..with_range(
            before,
            range,
            ActiveRange { cursor: new_pos, ..before.ranges[range] }.sampled(new_pos, now_ms),
        )
    })
    &&& forall|i: int| #[trigger]
        slice_marked(after.marks, i) <==> slice_marked(before.marks, i) || span_marks(
            before.map_size,
            at as int,
            new_pos as int,
            i,
        )
}

/// Moves the cursor of a range, and marks what it passes.
pub(crate) fn advance_range(c: &mut Coordinator, range: usize, at: u64, new_pos: u64, now_ms: u64)
    requires
        range < old(c)@.ranges.len(),
        old(c).index_state.wf(),
    ensures
        advanced(old(c)@, final(c)@, range as int, at, new_pos, now_ms),
        final(c).index_state.wf(),
        old(c).wf() ==> final(c).wf(),
{
    let mut r: ActiveRange = c.dl_ranges[range];
    r.cursor = new_pos;
    r.update_range_speed_sample(new_pos, now_ms);
    c.dl_ranges.set(range, r);
    let ghost before = c.index_state;
    c.index_state.mark_completed_span(at, new_pos);
    assert forall|i: int| #[trigger]
        slice_marked(c@.marks, i) <==> slice_marked(old(c)@.marks, i) || span_marks(
            old(c)@.map_size,
            at as int,
            new_pos as int,
            i,
        ) by {
        assert(c.index_state.marked(i) <==> before.marked(i) || span_marks(
            before.total_size as int,
            at as int,
            new_pos as int,
            i,
        ));
    }
}

impl LiveWorker {
    pub open spec fn view(&self) -> WorkerView {
        WorkerView {
            connection_id: self.connection_id,
            current: self.current,
            prefetched: self.prefetched,
            prefetch_pending: self.prefetch_pending,
            no_more_work: self.no_more_work,
            local_cursor: self.local_cursor,
            range_start_cursor: self.range_start_cursor,
            failures: self.consecutive_failures,
            made_progress: self.made_progress,
        }
    }

    /// The ranges that the worker holds exist, and what it has to write ends
    /// where it is.
    pub open spec fn wf(&self, c: CoordState) -> bool {
        &&& self.current matches Some(i) ==> i < c.ranges.len()
        &&& self.prefetched matches Some(i) ==> i < c.ranges.len()
        &&& self.pending.data@.len() > 0 ==> self.pending.end() == self.local_cursor
    }

    pub fn new(connection_id: u32) -> (r: LiveWorker)
        ensures
            r@ == (WorkerView {
                connection_id,
                current: None,
                prefetched: None,
                prefetch_pending: false,
                no_more_work: false,
                local_cursor: 0,
                range_start_cursor: 0,
                failures: 0,
                made_progress: false,
            }),
            r.pending.start_offset == 0,
            r.pending.data@.len() == 0,
            r.pending.target_bytes == WRITE_BUFFER_MIN_BYTES,
            forall|c: CoordState| #[trigger] r.wf(c),
    {
        LiveWorker {
            connection_id,
            current: None,
            prefetched: None,
            prefetch_pending: false,
            no_more_work: false,
            local_cursor: 0,
            range_start_cursor: 0,
            consecutive_failures: 0,
            made_progress: false,
            pending: PendingWrite::new(),
        }
    }

    /// The worker with range `i` of `c` in hand.
    pub open spec fn holding(w: WorkerView, c: CoordState, i: usize) -> WorkerView {
        WorkerView {
            current: Some(i),
            local_cursor: c.ranges[i as int].cursor,
            range_start_cursor: c.ranges[i as int].cursor,
            failures: 0,
            ..w
        }
    }

    fn hold(&mut self, c: &Coordinator, i: usize)
        requires
            i < c.dl_ranges@.len(),
            old(self).pending.data@.len() == 0,
            old(self).wf(c@),
        ensures
            final(self)@ == Self::holding(old(self)@, c@, i),
            final(self).pending == old(self).pending,
            final(self).wf(c@),
    {
        self.current = Some(i);
        self.local_cursor = c.dl_ranges[i].cursor;
        self.range_start_cursor = self.local_cursor;
        self.consecutive_failures = 0;
    }

    /// The worker and the coordinator once a range that was asked for ahead
    /// of time is taken up, if the worker has none in hand.
    pub open spec fn taken_up(w: WorkerView, c: CoordState) -> (WorkerView, CoordState) {
        match (w.current, w.prefetched) {
            (None, Some(i)) => (
                Self::holding(WorkerView { prefetched: None, ..w }, c, i),
                with_metrics(c, SchedulerMetrics { prefetch_hits: counted(c.metrics.prefetch_hits), ..c.metrics }),
            ),
            _ => (w, c),
        }
    }

    /// What the worker does next: it ends when the download halts; it asks for
    /// work when it has none; it marks a range that has nothing left as
    /// finished; else it sends a request for what is left of its range.
    pub fn next_step(&mut self, c: &mut Coordinator, halted: bool) -> (step: WorkerStep)
        requires
            old(self).wf(old(c)@),
            old(self).pending.data@.len() == 0,
        ensures
            final(self).wf(final(c)@),
            final(self).pending == old(self).pending,
            final(c).index_state == old(c).index_state,
            ({
                let (w, s) = Self::taken_up(old(self)@, old(c)@);
                if halted {
                    step == WorkerStep::Stop && final(self)@ == old(self)@ && final(c)@ == old(c)@
                } else {
                    match w.current {
                        None => step == WorkerStep::AskForWork && final(self)@ == w && final(c)@ == s,
                        Some(i) => {
                            let r = s.ranges[i as int];
                            if w.local_cursor >= r.end {
                                &&& step == WorkerStep::Again
                                &&& final(self)@ == (WorkerView { current: None, failures: 0, ..w })
                                &&& final(c)@ == with_range(
                                    s,
                                    i as int,
                                    ActiveRange { status: RANGE_STATUS_FINISHED, ..r },
                                )
                            } else {
                                &&& step == (WorkerStep::Send {
                                    range: i,
                                    first: w.local_cursor,
                                    last: (r.end - 1) as u64,
                                })
                                &&& final(self)@ == (WorkerView { made_progress: false, ..w })
                                &&& final(c)@ == with_metrics(
                                    s,
                                    SchedulerMetrics { http_requests: counted(s.metrics.http_requests), ..s.metrics },
                                )
                            }
                        },
                    }
                }
            }),
    {
        if halted {
            return WorkerStep::Stop;
        }
        if self.current.is_none() {
            match self.prefetched {
                Some(i) => {
                    self.prefetched = None;
                    SchedulerMetrics::add(&mut c.metrics.prefetch_hits, 1);
                    self.hold(c, i);
                },
                None => {
                    return WorkerStep::AskForWork;
                },
            }
        }
        match self.current {
            Some(i) => {
                let mut range: ActiveRange = c.dl_ranges[i];
                if self.local_cursor >= range.end {
                    range.status = RANGE_STATUS_FINISHED;
                    c.dl_ranges.set(i, range);
                    self.current = None;
                    self.consecutive_failures = 0;
                    WorkerStep::Again
                } else {
                    SchedulerMetrics::add(&mut c.metrics.http_requests, 1);
                    self.made_progress = false;
                    WorkerStep::Send { range: i, first: self.local_cursor, last: range.end - 1 }
                }
            },
            None => WorkerStep::AskForWork,
        }
    }

    /// Takes the work that was asked for; whether there was any.
    pub fn work_received(&mut self, c: &Coordinator, work: Option<usize>) -> (go_on: bool)
        requires
            old(self).wf(c@),
            old(self).pending.data@.len() == 0,
            work matches Some(i) ==> i < c@.ranges.len(),
        ensures
            go_on == (work is Some),
            final(self).wf(c@),
            final(self).pending == old(self).pending,
            final(self)@ == match work {
                Some(i) => Self::holding(old(self)@, c@, i),
                None => old(self)@,
            },
    {
        match work {
            Some(i) => {
                self.hold(c, i);
                true
            },
            None => false,
        }
    }

    /// Whether the next range is to be asked for, with `remaining` bytes left
    /// of this one; the request is counted.
    pub fn start_prefetch(&mut self, c: &mut Coordinator, remaining: u64, trigger_bytes: u64) -> (ask: bool)
        requires
            old(self).wf(old(c)@),
        ensures
            ask == (remaining <= trigger_bytes && !old(self).prefetch_pending && old(self).prefetched is None
                && !old(self).no_more_work),
            final(self)@ == (WorkerView { prefetch_pending: old(self).prefetch_pending || ask, ..old(self)@ }),
            final(self).pending == old(self).pending,
            final(self).wf(final(c)@),
            final(c)@ == with_metrics(
                old(c)@,
                SchedulerMetrics {
                    max_prefetch_trigger_bytes: max_int(
                        old(c)@.metrics.max_prefetch_trigger_bytes as int,
                        trigger_bytes as int,
                    ) as u64,
                    prefetch_requests: if ask {
                        counted(old(c)@.metrics.prefetch_requests)
                    } else {
                        old(c)@.metrics.prefetch_requests
                    },
                    ..old(c)@.metrics
                },
            ),
    {
        SchedulerMetrics::update_max(&mut c.metrics.max_prefetch_trigger_bytes, trigger_bytes);
        let ask: bool = remaining <= trigger_bytes && !self.prefetch_pending && self.prefetched.is_none()
            && !self.no_more_work;
        if ask {
            SchedulerMetrics::add(&mut c.metrics.prefetch_requests, 1);
            self.prefetch_pending = true;
        }
        ask
    }

    /// Takes the answer to a request ahead of time.
    pub fn prefetch_received(&mut self, c: &mut Coordinator, work: Option<usize>)
        requires
            old(self).wf(old(c)@),
            work matches Some(i) ==> i < old(c)@.ranges.len(),
        ensures
            final(self)@ == (WorkerView {
                prefetched: work,
                prefetch_pending: false,
                no_more_work: old(self).no_more_work || work is None,
                ..old(self)@
            }),
            final(self).pending == old(self).pending,
            final(self).wf(final(c)@),
            final(c)@ == match work {
                Some(_) => with_metrics(
                    old(c)@,
                    SchedulerMetrics { prefetch_ready: counted(old(c)@.metrics.prefetch_ready), ..old(c)@.metrics },
                ),
                None => old(c)@,
            },
    {
        self.prefetch_pending = false;
        match work {
            Some(_) => {
                SchedulerMetrics::add(&mut c.metrics.prefetch_ready, 1);
            },
            None => {
                self.no_more_work = true;
            },
        }
        self.prefetched = work;
    }

    /// Deals with a request that failed at `start` of range `range`. After
    /// `MAX_RANGE_RETRIES` failures in a row, or where nothing helps, the
    /// worker fails. A hint to work with fewer connections gives the range
    /// back and tells the worker to end.
    pub fn handle_range_retry(
        &mut self,
        c: &mut Coordinator,
        scaler: &mut Scaler,
        control: &mut WorkerControl,
        range: usize,
        start: u64,
        end: u64,
        reason: &str,
        hint: RetryHint,
    ) -> (outcome: RetryOutcome)
        requires
            old(self).wf(old(c)@),
            range < old(c)@.ranges.len(),
        ensures
            final(self).wf(final(c)@),
            final(self).pending == old(self).pending,
            ({
                let tries = min_int(old(self).consecutive_failures + 1, u32::MAX as int);
                let m = SchedulerMetrics {
                    retry_attempts: counted(old(c)@.metrics.retry_attempts),
                    ..old(c)@.metrics
                };
                if hint == RetryHint::Abort || tries > MAX_RANGE_RETRIES {
                    &&& outcome matches RetryOutcome::Fail(text) && text@ == failure_text(
                        old(c)@.ranges[range as int].id,
                        old(self).consecutive_failures,
                        start,
                        end,
                        reason@,
                    )
                    &&& final(self)@ == old(self)@
                    &&& final(c)@ == with_metrics(old(c)@, m)
                    &&& *final(scaler) == *old(scaler)
                    &&& *final(control) == *old(control)
                } else {
                    let n = SchedulerMetrics { retry_wait_ms: plus(m.retry_wait_ms, hint_delay(hint)), ..m };
                    &&& outcome == RetryOutcome::Wait(hint_delay(hint))
                    &&& final(self)@ == (WorkerView { failures: tries as u32, ..old(self)@ })
                    &&& if hint is ReduceWorkers {
                        &&& final(c)@ == with_metrics(
                            with_range(old(c)@, range as int, old(c)@.ranges[range as int].given_back(start)),
                            n,
                        )
                        &&& *final(scaler) == (Scaler {
                            skip_growth_sample: true,
                            slow_start_remaining: min_int(
                                old(scaler).slow_start_remaining + 1,
                                u32::MAX as int,
                            ) as u32,
                            ..*old(scaler)
                        })
                        &&& *final(control) == (WorkerControl { stop_requested: true, ..*old(control) })
                    } else {
                        &&& final(c)@ == with_metrics(old(c)@, n)
                        &&& *final(scaler) == *old(scaler)
                        &&& *final(control) == *old(control)
                    }
                }
            }),
    {
        let tries: u32 = self.consecutive_failures.saturating_add(1);
        SchedulerMetrics::add(&mut c.metrics.retry_attempts, 1);
        let abort: bool = match hint {
            RetryHint::Abort => true,
            _ => false,
        };
        if abort || tries > MAX_RANGE_RETRIES {
            return RetryOutcome::Fail(
                failure_message(c.dl_ranges[range].id, self.consecutive_failures, start, end, reason),
            );
        }
        let delay_ms: u64 = match hint {
            RetryHint::Immediate => 0,
            RetryHint::Backoff(ms) => ms,
            RetryHint::ReduceWorkers(ms) => {
                scaler.skip_growth_sample = true;
                scaler.slow_start_remaining = scaler.slow_start_remaining.saturating_add(1);
                control.stop_requested = true;
                let mut r: ActiveRange = c.dl_ranges[range];
                r.relinquish_range(start);
                c.dl_ranges.set(range, r);
                ms
            },
            RetryHint::ShrinkRange(ms) => ms,
            RetryHint::Abort => 0,
        };
        SchedulerMetrics::add(&mut c.metrics.retry_wait_ms, delay_ms);
        self.consecutive_failures = tries;
        RetryOutcome::Wait(delay_ms)
    }

    /// Takes a chunk of range `range` that arrived at `now_ms`: as much of it
    /// as belongs to the range is kept for writing, and the progress is noted.
    pub fn take_chunk(
        &mut self,
        c: &mut Coordinator,
        control: &mut WorkerControl,
        downloaded: &mut u64,
        range: usize,
        chunk: &[u8],
        now_ms: u64,
    ) -> (outcome: ChunkOutcome)
        requires
            old(self).wf(old(c)@),
            range < old(c)@.ranges.len(),
            old(c).index_state.wf(),
        ensures
            final(self).wf(final(c)@),
            final(c).index_state.wf(),
            old(c).wf() ==> final(c).wf(),
            ({
                let r = old(c)@.ranges[range as int];
                let at = old(self).local_cursor;
                let n = min_int(r.end - at, chunk@.len() as int);
                let new_pos = (at + n) as u64;
                if at >= r.end {
                    &&& outcome == ChunkOutcome::PastEnd
                    &&& final(self)@ == (WorkerView { current: None, ..old(self)@ })
                    &&& final(self).pending == old(self).pending
                    &&& final(c)@ == old(c)@
                    &&& *final(control) == *old(control)
                    &&& *final(downloaded) == *old(downloaded)
                } else {
                    &&& outcome == ChunkOutcome::Taken(n as usize)
                    &&& final(self)@ == (WorkerView { local_cursor: new_pos, made_progress: true, ..old(self)@ })
                    &&& final(self).pending.data@ == old(self).pending.data@ + chunk@.take(n)
                    &&& final(self).pending.start_offset == if old(self).pending.data@.len() == 0 {
                        at
                    } else {
                        old(self).pending.start_offset
                    }
                    &&& final(self).pending.target_bytes == old(self).pending.target_bytes
                    &&& advanced(old(c)@, final(c)@, range as int, at, new_pos, now_ms)
                    &&& *final(control) == (WorkerControl {
                        transferred_bytes: saturated(old(control).transferred_bytes + n) as u64,
                        ..*old(control)
                    })
                    &&& *final(downloaded) == saturated(*old(downloaded) + n)
                }
            }),
    {
        let r: ActiveRange = c.dl_ranges[range];
        if self.local_cursor >= r.end {
            self.current = None;
            return ChunkOutcome::PastEnd;
        }
        let room: u64 = r.end - self.local_cursor;
        let to_write: usize = if room < chunk.len() as u64 {
            room as usize
        } else {
            chunk.len()
        };
        let part: &[u8] = slice_subrange(chunk, 0, to_write);
        assert(part@ =~= chunk@.take(to_write as int));
        self.pending.append_pending_write(self.local_cursor, part);
        let new_pos: u64 = self.local_cursor + to_write as u64;
        advance_range(c, range, self.local_cursor, new_pos, now_ms);
        *downloaded = downloaded.saturating_add(to_write as u64);
        self.made_progress = true;
        control.transferred_bytes = control.transferred_bytes.saturating_add(to_write as u64);
        self.local_cursor = new_pos;
        ChunkOutcome::Taken(to_write)
    }

    /// Gives the range in hand back at the point that was reached.
    pub fn give_back(&mut self, c: &mut Coordinator, range: usize)
        requires
            old(self).wf(old(c)@),
            range < old(c)@.ranges.len(),
        ensures
            final(self).wf(final(c)@),
            final(self).pending == old(self).pending,
            final(self)@ == (WorkerView { current: None, ..old(self)@ }),
            final(c)@ == with_range(
                old(c)@,
                range as int,
                old(c)@.ranges[range as int].given_back(old(self).local_cursor),
            ),
            final(c).index_state == old(c).index_state,
    {
        let mut r: ActiveRange = c.dl_ranges[range];
        r.relinquish_range(self.local_cursor);
        c.dl_ranges.set(range, r);
        self.current = None;
    }

    /// Lets go of a range that ended before the chunk did.
    pub fn let_go(&mut self)
        ensures
            final(self)@ == (WorkerView { current: None, failures: 0, ..old(self)@ }),
            final(self).pending == (PendingWrite { target_bytes: WRITE_BUFFER_MIN_BYTES, ..old(self).pending }),
    {
        self.current = None;
        self.consecutive_failures = 0;
        self.pending.reset_pending_write_target();
    }

    /// Takes note that the stream of range `range` ended. What was received
    /// must have been handed over for writing.
    pub fn stream_ended(&mut self, c: &mut Coordinator, range: usize) -> (end: StreamEnd)
        requires
            old(self).wf(old(c)@),
            range < old(c)@.ranges.len(),
        ensures
            final(self).wf(final(c)@),
            final(c).index_state == old(c).index_state,
            ({
                let w = WorkerView {
                    failures: if old(self).made_progress {
                        0
                    } else {
                        old(self).consecutive_failures
                    },
                    ..old(self)@
                };
                let r = old(c)@.ranges[range as int];
                if old(self).local_cursor >= r.end {
                    &&& end == StreamEnd::Complete
                    &&& final(self)@ == (WorkerView { current: None, failures: 0, ..w })
                    &&& final(c)@ == with_metrics(
                        with_range(old(c)@, range as int, ActiveRange { status: RANGE_STATUS_FINISHED, ..r }),
                        SchedulerMetrics {
                            completed_ranges: counted(old(c)@.metrics.completed_ranges),
                            ..old(c)@.metrics
                        },
                    )
                } else {
                    &&& end == if old(self).made_progress {
                        StreamEnd::Partial
                    } else {
                        StreamEnd::Empty
                    }
                    &&& final(self)@ == w
                    &&& final(c)@ == old(c)@
                }
            }),
            final(self).pending == if end == StreamEnd::Empty {
                old(self).pending
            } else {
                PendingWrite { target_bytes: WRITE_BUFFER_MIN_BYTES, ..old(self).pending }
            },
    {
        if self.made_progress {
            self.consecutive_failures = 0;
        }
        let mut r: ActiveRange = c.dl_ranges[range];
        if self.local_cursor >= r.end {
            r.status = RANGE_STATUS_FINISHED;
            c.dl_ranges.set(range, r);
            SchedulerMetrics::add(&mut c.metrics.completed_ranges, 1);
            self.current = None;
            self.consecutive_failures = 0;
            self.pending.reset_pending_write_target();
            StreamEnd::Complete
        } else if self.made_progress {
            self.pending.reset_pending_write_target();
            StreamEnd::Partial
        } else {
            StreamEnd::Empty
        }
    }

    /// Takes note that the stream broke; whether it is simply opened again,
    /// because some of it had arrived.
    pub fn stream_broke(&mut self) -> (reopen: bool)
        ensures
            reopen == old(self).made_progress,
            final(self)@ == (WorkerView {
                failures: if reopen {
                    0
                } else {
                    old(self).consecutive_failures
                },
                ..old(self)@
            }),
            final(self).pending == if reopen {
                PendingWrite { target_bytes: WRITE_BUFFER_MIN_BYTES, ..old(self).pending }
            } else {
                old(self).pending
            },
    {
        if self.made_progress {
            self.consecutive_failures = 0;
            self.pending.reset_pending_write_target();
            true
        } else {
            false
        }
    }

    /// The ranges once a worker that halts has given back what it holds: the
    /// one in hand where it is, the next one untouched.
    pub open spec fn all_given_back(w: WorkerView, ranges: Seq<ActiveRange>) -> Seq<ActiveRange> {
        let a = match w.current {
            Some(i) => ranges.update(i as int, ranges[i as int].given_back(w.local_cursor)),
            None => ranges,
        };
        match w.prefetched {
            Some(i) => a.update(i as int, a[i as int].given_back(a[i as int].cursor)),
            None => a,
        }
    }

    /// Gives back what the worker holds when the download halts.
    pub fn halt(&mut self, c: &mut Coordinator)
        requires
            old(self).wf(old(c)@),
        ensures
            final(self).wf(final(c)@),
            final(self).pending == old(self).pending,
            final(self)@ == (WorkerView { current: None, prefetched: None, prefetch_pending: false, ..old(self)@ }),
            final(c)@ == (CoordState { ranges: Self::all_given_back(old(self)@, old(c)@.ranges), ..old(c)@ }),
            final(c).index_state == old(c).index_state,
    {
        match self.current {
            Some(i) => {
                self.give_back(c, i);
            },
            None => {},
        }
        match self.prefetched {
            Some(i) => {
                let mut r: ActiveRange = c.dl_ranges[i];
                let cursor: u64 = r.cursor;
                r.relinquish_range(cursor);
                c.dl_ranges.set(i, r);
            },
            None => {},
        }
        self.prefetched = None;
        self.prefetch_pending = false;
    }

    /// Advances a dry run by one step; the second result is what is left of
    /// the range.
    pub fn dry_step(
        &mut self,
        c: &mut Coordinator,
        control: &mut WorkerControl,
        downloaded: &mut u64,
        range: usize,
        now_ms: u64,
    ) -> (r: (u64, u64))
        requires
            old(self).wf(old(c)@),
            old(self).pending.data@.len() == 0,
            range < old(c)@.ranges.len(),
            old(self).local_cursor < old(c)@.ranges[range as int].end,
            old(c).index_state.wf(),
        ensures
            final(self).wf(final(c)@),
            final(self).pending == old(self).pending,
            final(c).index_state.wf(),
            old(c).wf() ==> final(c).wf(),
            ({
                let o = old(c)@.ranges[range as int];
                let at = old(self).local_cursor;
                let n = min_int(DRY_RUN_STEP_BYTES as int, o.end - at);
                let new_pos = (at + n) as u64;
                &&& r.0 == n
                &&& r.1 == o.end - new_pos
                &&& final(self)@ == (WorkerView { local_cursor: new_pos, ..old(self)@ })
                &&& advanced(old(c)@, final(c)@, range as int, at, new_pos, now_ms)
                &&& *final(control) == (WorkerControl {
                    transferred_bytes: saturated(old(control).transferred_bytes + n) as u64,
                    ..*old(control)
                })
                &&& *final(downloaded) == saturated(*old(downloaded) + n)
            }),
    {
        let end: u64 = c.dl_ranges[range].end;
        let step: u64 = min_u64(DRY_RUN_STEP_BYTES, end - self.local_cursor);
        let new_pos: u64 = self.local_cursor + step;
        advance_range(c, range, self.local_cursor, new_pos, now_ms);
        *downloaded = downloaded.saturating_add(step);
        self.local_cursor = new_pos;
        control.transferred_bytes = control.transferred_bytes.saturating_add(step);
        (step, end - new_pos)
    }
}

/// What a worker does with its range once a chunk is taken in.
#[derive(Debug, Clone, Copy, PartialEq, Eq, Structural)]
pub enum RangeStep {
    GoOn,
    /// The range ended before the chunk did: another one is needed.
    LetGo,
    /// The worker ends: what is left of the range goes back.
    GiveBack,
}

/// What follows a chunk.
#[derive(Debug, Clone, Copy, PartialEq, Eq, Structural)]
pub struct AfterChunk {
    /// Whether what is pending is to be written, full or not.
    pub write_all: bool,
    /// Whether it is looked at if the next range is to be asked for.
    pub look_ahead: bool,
    pub range: RangeStep,
}

/// What follows a chunk of `len` bytes of which `taken` belong to the range: a
/// worker whose download halts, or that is told to end, gives its range back.
pub fn after_chunk(halted: bool, stop_requested: bool, taken: usize, len: usize) -> (r: AfterChunk)
    ensures
        r.look_ahead == !halted,
        r.range == if halted || stop_requested {
            RangeStep::GiveBack
        } else if taken < len {
            RangeStep::LetGo
        } else {
            RangeStep::GoOn
        },
        r.write_all == (r.range != RangeStep::GoOn),
{
    let range: RangeStep = if halted || stop_requested {
        RangeStep::GiveBack
    } else if taken < len {
        RangeStep::LetGo
    } else {
        RangeStep::GoOn
    };
    AfterChunk { write_all: halted || stop_requested || taken < len, look_ahead: !halted, range }
}

/// How long a worker took to get going.
#[derive(Debug, Clone, Copy, PartialEq, Eq, Structural)]
pub struct StartupProbe {
    pub first_assignment_wait_ms: Option<u64>,
    pub first_request_setup_ms: Option<u64>,
    pub first_byte_ms: Option<u64>,
    pub total_to_first_byte_ms: Option<u64>,
}

impl StartupProbe {
    pub fn new() -> (r: StartupProbe)
        ensures
            r == (StartupProbe {
                first_assignment_wait_ms: None,
                first_request_setup_ms: None,
                first_byte_ms: None,
                total_to_first_byte_ms: None,
            }),
    {
        StartupProbe {
            first_assignment_wait_ms: None,
            first_request_setup_ms: None,
            first_byte_ms: None,
            total_to_first_byte_ms: None,
        }
    }

    /// Notes how long the first range was waited for.
    pub fn note_first_assignment(&mut self, waited_ms: u64, metrics: &mut SchedulerMetrics)
        ensures
            old(self).first_assignment_wait_ms is Some ==> *final(self) == *old(self) && *final(metrics) == *old(
                metrics,
            ),
            old(self).first_assignment_wait_ms is None ==> {
                &&& *final(self) == (StartupProbe { first_assignment_wait_ms: Some(waited_ms), ..*old(self) })
                &&& *final(metrics) == (SchedulerMetrics {
                    startup_first_assignment_wait_ms: plus(old(metrics).startup_first_assignment_wait_ms, waited_ms),
                    ..*old(metrics)
                })
            },
    {
        if self.first_assignment_wait_ms.is_none() {
            self.first_assignment_wait_ms = Some(waited_ms);
            SchedulerMetrics::add(&mut metrics.startup_first_assignment_wait_ms, waited_ms);
        }
    }

    /// Notes how long the first request took to set up.
    pub fn note_first_request_setup(&mut self, setup_ms: u64, metrics: &mut SchedulerMetrics)
        ensures
            old(self).first_request_setup_ms is Some ==> *final(self) == *old(self) && *final(metrics) == *old(metrics),
            old(self).first_request_setup_ms is None ==> {
                &&& *final(self) == (StartupProbe { first_request_setup_ms: Some(setup_ms), ..*old(self) })
                &&& *final(metrics) == (SchedulerMetrics {
                    startup_first_request_setup_ms: plus(old(metrics).startup_first_request_setup_ms, setup_ms),
                    ..*old(metrics)
                })
            },
    {
        if self.first_request_setup_ms.is_none() {
            self.first_request_setup_ms = Some(setup_ms);
            SchedulerMetrics::add(&mut metrics.startup_first_request_setup_ms, setup_ms);
        }
    }

    /// Notes when the first byte arrived; whether it was the first.
    pub fn note_first_byte(&mut self, first_byte_ms: u64, total_ms: u64, metrics: &mut SchedulerMetrics) -> (first: bool)
        ensures
            first == (old(self).first_byte_ms is None),
            !first ==> *final(self) == *old(self) && *final(metrics) == *old(metrics),
            first ==> {
                &&& *final(self) == (StartupProbe {
                    first_byte_ms: Some(first_byte_ms),
                    total_to_first_byte_ms: Some(total_ms),
                    ..*old(self)
                })
                &&& *final(metrics) == (SchedulerMetrics {
                    startup_first_byte_ms: plus(old(metrics).startup_first_byte_ms, first_byte_ms),
                    startup_total_to_first_byte_ms: plus(old(metrics).startup_total_to_first_byte_ms, total_ms),
                    ..*old(metrics)
                })
            },
    {
        if self.first_byte_ms.is_some() {
            return false;
        }
        self.first_byte_ms = Some(first_byte_ms);
        self.total_to_first_byte_ms = Some(total_ms);
        SchedulerMetrics::add(&mut metrics.startup_first_byte_ms, first_byte_ms);
        SchedulerMetrics::add(&mut metrics.startup_total_to_first_byte_ms, total_ms);
        true
    }
}

/// What the headers of a response tell.
#[derive(Debug, Clone, Copy, PartialEq, Eq, Structural)]
pub struct ResponseFacts {
    pub supports_ranges: bool,
    pub may_be_challenge: bool,
}

/// The text of an optional header.
pub open spec fn header_or_empty(h: Option<Seq<char>>) -> Seq<char> {
    match h {
        Some(t) => t,
        None => Seq::empty(),
    }
}

/// The server can send parts of the file: it did, it said which, or it says
/// that it can.
pub open spec fn ranges_supported(status: u16, has_content_range: bool, accept_ranges: Option<Seq<char>>) -> bool {
    status == 206 || has_content_range || (accept_ranges matches Some(t) && lower(t) == "bytes"@)
}

/// The body may be a page that stands in the way: it is not a part of the
/// file, it is not meant to be saved, and its type is open or that of text.
pub open spec fn challenge_possible(
    status: u16,
    content_type: Option<Seq<char>>,
    disposition: Option<Seq<char>>,
) -> bool {
    let t = header_or_empty(content_type);
    &&& status != 206
    &&& !(disposition matches Some(d) && (contains(lower(d), "attachment"@) || contains(lower(d), "filename="@)))
    &&& t.len() == 0 || contains(t, "text/html"@) || contains(t, "application/xhtml"@) || contains(t, "text/plain"@)
}

/// Reads the headers of a response.
pub fn read_response(
    status: u16,
    has_content_range: bool,
    accept_ranges: &Option<String>,
    content_type: &Option<String>,
    content_disposition: &Option<String>,
) -> (r: ResponseFacts)
    ensures
        r.supports_ranges == ranges_supported(
            status,
            has_content_range,
            crate::web_url::opt_text(*accept_ranges),
        ),
        r.may_be_challenge == challenge_possible(
            status,
            crate::web_url::opt_text(*content_type),
            crate::web_url::opt_text(*content_disposition),
        ),
{
    let says_bytes: bool = match accept_ranges {
        Some(t) => {
            let key: String = to_lower(t.as_str());
            same(key.as_str(), "bytes")
        },
        None => false,
    };
    let attached: bool = match content_disposition {
        Some(d) => {
            let key: String = to_lower(d.as_str());
            mentions(key.as_str(), "attachment") || mentions(key.as_str(), "filename=")
        },
        None => false,
    };
    let textual: bool = match content_type {
        Some(t) => t.as_str().unicode_len() == 0 || mentions(t.as_str(), "text/html") || mentions(
            t.as_str(),
            "application/xhtml",
        ) || mentions(t.as_str(), "text/plain"),
        None => true,
    };
    ResponseFacts {
        supports_ranges: status == 206 || has_content_range || says_bytes,
        may_be_challenge: status != 206 && !attached && textual,
    }
}

/// What the first chunk of a response turns out to be.
#[derive(Debug, Clone, Copy, PartialEq, Eq, Structural)]
pub enum ChallengeVerdict {
    /// The file, as far as one can tell.
    File,
    /// A page, but it may be what was asked for.
    Suspicious(ChallengeKind),
    /// A page that only a browser gets past.
    Blocked(ChallengeKind),
}

/// Judges the first chunk of a response.
pub fn judge_first_chunk(may_be_challenge: bool, chunk: &[u8]) -> (r: ChallengeVerdict)
    ensures
        r == match body_kind(chunk@) {
            Some(kind) => if !may_be_challenge {
                ChallengeVerdict::File
            } else if kind.needs_browser() {
                ChallengeVerdict::Blocked(kind)
            } else {
                ChallengeVerdict::Suspicious(kind)
            },
            None => ChallengeVerdict::File,
        },
{
    if !may_be_challenge {
        return ChallengeVerdict::File;
    }
    match classify_response_body(chunk) {
        Some(kind) => {
            if kind.requires_browser_session() {
                ChallengeVerdict::Blocked(kind)
            } else {
                ChallengeVerdict::Suspicious(kind)
            }
        },
        None => ChallengeVerdict::File,
    }
}

/// Why a download that met a challenge cannot go on.
pub fn challenge_message(kind: ChallengeKind) -> (r: String)
    ensures
        r@ == "download aborted: server returned challenge/interstitial page ("@ + kind.name() + ")"@,
{
    let mut r: String = owned("download aborted: server returned challenge/interstitial page (");
    r.append(kind.as_str());
    r.append(")");
    r
}

/// The value of a `Range` header.
pub open spec fn range_text(first: u64, last: u64) -> Seq<char> {
    "bytes="@ + decimal(first as nat) + "-"@ + decimal(last as nat)
}

/// The value of a `Range` header.
pub fn range_value(first: u64, last: u64) -> (r: String)
    ensures
        r@ == range_text(first, last),
{
    let mut r: String = owned("bytes=");
    let a: String = decimal_string(first);
    let b: String = decimal_string(last);
    r.append(a.as_str());
    r.append("-");
    r.append(b.as_str());
    r
}

/// Taking a chunk keeps the file divided, and adds what was taken to what
/// is received.
pub proof fn law_chunk_keeps_division(c: CoordState, range: int, at: u64, n: int, now_ms: u64)
    requires
        divides(c.ranges, c.total),
        0 <= range < c.ranges.len(),
        c.ranges[range].cursor == at,
        0 <= n,
        at + n <= c.ranges[range].end,
    ensures
        ({
            let r = c.ranges[range];
            let new_pos = (at + n) as u64;
            let after = c.ranges.update(range, ActiveRange { cursor: new_pos, ..r }.sampled(new_pos, now_ms));
            &&& divides(after, c.total)
            &&& total_done(after) == total_done(c.ranges) + n
        }),
{
    let r = c.ranges[range];
    let new_pos = (at + n) as u64;
    let s = ActiveRange { cursor: new_pos, ..r }.sampled(new_pos, now_ms);
    lemma_moved_keeps_division(c, range, s);
}

proof fn lemma_moved_keeps_division(c: CoordState, range: int, s: ActiveRange)
    requires
        divides(c.ranges, c.total),
        0 <= range < c.ranges.len(),
        s.byte_start == c.ranges[range].byte_start,
        s.end == c.ranges[range].end,
        s.byte_start <= s.cursor <= s.end,
    ensures
        divides(c.ranges.update(range, s), c.total),
        total_done(c.ranges.update(range, s)) == total_done(c.ranges) - c.ranges[range].done() + s.done(),
{
    let after = c.ranges.update(range, s);
    lemma_sums_update(c.ranges, range, s);
    assert(c.ranges[range].in_order(c.total));
    assert forall|b: int| 0 <= b < c.total implies #[trigger] covered(after, b) by {
        assert(covered(c.ranges, b));
        let k = choose|k: int| 0 <= k < c.ranges.len() && (#[trigger] c.ranges[k]).holds(b);
        assert(after[k].holds(b));
    }
}

/// A range that is given back keeps what was received, and the file stays divided.
pub proof fn law_give_back_keeps_progress(c: CoordState, range: int, at: u64)
    requires
        divides(c.ranges, c.total),
        0 <= range < c.ranges.len(),
        c.ranges[range].cursor == at,
    ensures
        ({
            let after = c.ranges.update(range, c.ranges[range].given_back(at));
            &&& divides(after, c.total)
            &&& total_done(after) == total_done(c.ranges)
            &&& after[range].assigned_to == UNASSIGNED_CONNECTION
            &&& after[range].status == RANGE_STATUS_PENDING
        }),
{
    assert(c.ranges[range].in_order(c.total));
    lemma_moved_keeps_division(c, range, c.ranges[range].given_back(at));
}

} // verus!
