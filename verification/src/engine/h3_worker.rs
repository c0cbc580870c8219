//! What one HTTP/3 connection does, step by step.

use vstd::prelude::*;
use crate::engine::coordinator::{CoordState, Coordinator};
use crate::engine::coordinator_laws::{divides, is_state, law_work_keeps_division, lemma_reassigned_divides};
use crate::engine::metrics::SchedulerMetrics;
use crate::engine::ranges::{lemma_sums_update, total_done, ActiveRange, RANGE_STATUS_FINISHED};
use crate::engine::runtime::WorkerControl;
use crate::engine::scaler::plus;
use crate::engine::transport::{counted, record_protocol_request_metric};
use crate::engine::types::ProtocolFamily;
use crate::engine::worker::{with_metrics, with_range};
use crate::units::max_u64;

verus! {

/// How long a refused or broken request is followed by a pause.
pub const H3_RETRY_DELAY_MS: u64 = 1000;

/// A connection that fetches ranges over HTTP/3.
#[derive(Debug, Clone, Copy, PartialEq, Eq, Structural)]
pub struct H3Worker {
    pub connection_id: u32,
    /// The range in hand.
    pub current: Option<usize>,
    pub local_cursor: u64,
    pub max_end: u64,
    /// Whether what arrives is written.
    pub has_file: bool,
}

/// What the connection does next.
#[derive(Debug, Clone, Copy, PartialEq, Eq, Structural)]
pub enum H3Step {
    Stop,
    AskForWork,
    Again,
    Send { range: usize, first: u64, last: u64 },
}

/// One request: where the next bytes belong, and how many arrived.
#[derive(Debug, Clone, Copy, PartialEq, Eq, Structural)]
pub struct H3Attempt {
    pub cursor: u64,
    pub received: u64,
    pub first_byte_ms: Option<u64>,
}

/// What a response comes to.
#[derive(Debug, Clone, Copy, PartialEq, Eq, Structural)]
pub enum H3Outcome {
    /// It carried the file; the time to its first byte.
    Accepted(u64),
    /// It did not; whether the server asks for fewer requests.
    Refused { rate_limited: bool },
}

/// Whether a response carries the file.
pub fn h3_accepts(status: u16) -> (r: bool)
    ensures
        r == (status == 206 || status == 200),
{
    status == 206 || status == 200
}

/// The state once a range is marked as finished.
pub open spec fn with_finished(c: CoordState, i: int) -> CoordState {
    with_range(c, i, ActiveRange { status: RANGE_STATUS_FINISHED, ..c.ranges[i] })
}

impl H3Worker {
    /// The range in hand exists.
    pub open spec fn wf(&self, c: CoordState) -> bool {
        self.current matches Some(i) ==> i < c.ranges.len()
    }

    pub fn new(connection_id: u32, dry_run: bool) -> (r: H3Worker)
        ensures
            r == (H3Worker { connection_id, current: None, local_cursor: 0, max_end: 0, has_file: !dry_run }),
            forall|c: CoordState| #[trigger] r.wf(c),
    {
        H3Worker { connection_id, current: None, local_cursor: 0, max_end: 0, has_file: !dry_run }
    }

    /// What the connection does next: it ends when the download halts, and
    /// asks for work when it has none. Once its range is fetched, it marks it
    /// as finished and asks for work without taking any up.
    pub fn next_step(&mut self, c: &mut Coordinator, halted: bool) -> (step: H3Step)
        requires
            old(self).wf(old(c)@),
            old(c)@.schedulable(),
        ensures
            final(self).wf(final(c)@),
            if halted {
                step == H3Step::Stop && *final(self) == *old(self) && final(c)@ == old(c)@
            } else {
                match old(self).current {
                    None => step == H3Step::AskForWork && *final(self) == *old(self) && final(c)@ == old(c)@,
                    Some(i) => if old(self).local_cursor >= old(self).max_end {
                        &&& step == H3Step::Again
                        &&& *final(self) == (H3Worker { current: None, ..*old(self) })
                        &&& exists|work: Option<usize>| #[trigger]
                            with_finished(old(c)@, i as int).work_outcome(old(self).connection_id, final(c)@, work)
                    } else {
                        &&& step == (H3Step::Send {
                            range: i,
                            first: old(self).local_cursor,
                            last: (old(self).max_end - 1) as u64,
                        })
                        &&& *final(self) == *old(self)
                        &&& final(c)@ == with_metrics(
                            old(c)@,
                            SchedulerMetrics {
                                http_requests: counted(old(c)@.metrics.http_requests),
                                ..old(c)@.metrics
                            },
                        )
                    },
                }
            },
    {
        if halted {
            return H3Step::Stop;
        }
        match self.current {
            None => H3Step::AskForWork,
            Some(i) => {
                if self.local_cursor >= self.max_end {
                    let mut r: ActiveRange = c.dl_ranges[i];
                    let ghost before = c@;
                    r.status = RANGE_STATUS_FINISHED;
                    c.dl_ranges.set(i, r);
                    self.current = None;
                    proof {
                        lemma_sums_update(before.ranges, i as int, r);
                    }
                    let ghost marked = c@;
                    assert(marked == with_finished(before, i as int));
                    let work: Option<usize> = c.get_work(self.connection_id);
                    assert(marked.work_outcome(self.connection_id, c@, work));
                    H3Step::Again
                } else {
                    SchedulerMetrics::add(&mut c.metrics.http_requests, 1);
                    H3Step::Send { range: i, first: self.local_cursor, last: self.max_end - 1 }
                }
            },
        }
    }

    /// Takes the work that was asked for; whether there was any.
    pub fn work_received(&mut self, c: &Coordinator, work: Option<usize>) -> (go_on: bool)
        requires
            old(self).wf(c@),
            work matches Some(i) ==> i < c@.ranges.len(),
        ensures
            go_on == (work is Some),
            final(self).wf(c@),
            *final(self) == match work {
                Some(i) => H3Worker {
                    current: Some(i),
                    local_cursor: c@.ranges[i as int].cursor,
                    max_end: c@.ranges[i as int].end,
                    ..*old(self)
                },
                None => *old(self),
            },
    {
        match work {
            Some(i) => {
                self.current = Some(i);
                self.local_cursor = c.dl_ranges[i].cursor;
                self.max_end = c.dl_ranges[i].end;
                true
            },
            None => false,
        }
    }

    /// A request that begins where the connection is.
    pub fn begin(&self) -> (a: H3Attempt)
        ensures
            a == (H3Attempt { cursor: self.local_cursor, received: 0, first_byte_ms: None }),
    {
        H3Attempt { cursor: self.local_cursor, received: 0, first_byte_ms: None }
    }

    /// Takes note of how a response ended, `elapsed_ms` after the request was
    /// sent. What arrived counts, whatever the status.
    pub fn request_ended(&mut self, c: &mut Coordinator, attempt: H3Attempt, status: u16, elapsed_ms: u64) -> (outcome:
        H3Outcome)
        requires
            old(self).wf(old(c)@),
        ensures
            final(self).wf(final(c)@),
            *final(self) == (H3Worker { local_cursor: attempt.cursor, ..*old(self) }),
            outcome == if status == 206 || status == 200 {
                H3Outcome::Accepted(attempt.setup_ms(elapsed_ms))
            } else {
                H3Outcome::Refused { rate_limited: status == 429 }
            },
            final(c)@ == with_metrics(old(c)@, response_counted(old(c)@.metrics, attempt, status, elapsed_ms)),
    {
        self.local_cursor = attempt.cursor;
        let first: u64 = match attempt.first_byte_ms {
            Some(ms) => ms,
            None => 0,
        };
        let setup: u64 = match attempt.first_byte_ms {
            Some(ms) => ms,
            None => elapsed_ms,
        };
        SchedulerMetrics::add(&mut c.metrics.http_setup_ms, setup);
        record_protocol_request_metric(&mut c.metrics, ProtocolFamily::Http3);
        if !h3_accepts(status) {
            return H3Outcome::Refused { rate_limited: status == 429 };
        }
        let streamed: u64 = if elapsed_ms >= first {
            elapsed_ms - first
        } else {
            elapsed_ms
        };
        if attempt.received > 0 {
            SchedulerMetrics::add(&mut c.metrics.http_stream_ms, streamed);
        }
        H3Outcome::Accepted(max_u64(first, setup))
    }

    /// Takes note that a request broke: what arrived is asked for again, and
    /// nothing is written from now on.
    pub fn request_broke(&mut self)
        ensures
            *final(self) == (H3Worker { has_file: false, ..*old(self) }),
    {
        self.has_file = false;
    }
}

/// The counters after a response.
pub open spec fn response_counted(m: SchedulerMetrics, a: H3Attempt, status: u16, elapsed_ms: u64) -> SchedulerMetrics {
    let s = SchedulerMetrics {
        http_setup_ms: plus(m.http_setup_ms, a.setup_ms(elapsed_ms)),
        http3_requests: counted(m.http3_requests),
        ..m
    };
    if (status == 206 || status == 200) && a.received > 0 {
        SchedulerMetrics { http_stream_ms: plus(s.http_stream_ms, a.stream_ms(elapsed_ms)), ..s }
    } else {
        s
    }
}

impl H3Attempt {
    /// The time to the first byte, or to the end where nothing arrived.
    pub open spec fn setup_ms(self, elapsed_ms: u64) -> u64 {
        match self.first_byte_ms {
            Some(ms) => ms,
            None => elapsed_ms,
        }
    }

    /// The time from the first byte to the end.
    pub open spec fn stream_ms(self, elapsed_ms: u64) -> u64 {
        match self.first_byte_ms {
            Some(ms) => if elapsed_ms >= ms {
                (elapsed_ms - ms) as u64
            } else {
                elapsed_ms
            },
            None => elapsed_ms,
        }
    }

    /// Takes note of when the first byte arrived.
    pub fn note_first_byte(&mut self, elapsed_ms: u64, metrics: &mut SchedulerMetrics)
        ensures
            old(self).first_byte_ms is Some ==> *final(self) == *old(self) && *final(metrics) == *old(metrics),
            old(self).first_byte_ms is None ==> {
                &&& *final(self) == (H3Attempt { first_byte_ms: Some(elapsed_ms), ..*old(self) })
                &&& *final(metrics) == (SchedulerMetrics {
                    http_ttfb_ms: plus(old(metrics).http_ttfb_ms, elapsed_ms),
                    ..*old(metrics)
                })
            },
    {
        if self.first_byte_ms.is_none() {
            self.first_byte_ms = Some(elapsed_ms);
            SchedulerMetrics::add(&mut metrics.http_ttfb_ms, elapsed_ms);
        }
    }

    /// Takes in `len` bytes; the result is where they belong in the file.
    /// Empty chunks are passed over.
    pub fn take_chunk(&mut self, control: &mut WorkerControl, downloaded: &mut u64, len: u64) -> (at: Option<u64>)
        ensures
            len == 0 ==> at is None && *final(self) == *old(self) && *final(control) == *old(control)
                && *final(downloaded) == *old(downloaded),
            len > 0 ==> {
                &&& at == Some(old(self).cursor)
                &&& *final(self) == (H3Attempt {
                    cursor: plus(old(self).cursor, len),
                    received: plus(old(self).received, len),
                    ..*old(self)
                })
                &&& *final(control) == (WorkerControl {
                    transferred_bytes: plus(old(control).transferred_bytes, len),
                    ..*old(control)
                })
                &&& *final(downloaded) == plus(*old(downloaded), len)
            },
    {
        if len == 0 {
            return None;
        }
        let at: u64 = self.cursor;
        self.cursor = self.cursor.saturating_add(len);
        self.received = self.received.saturating_add(len);
        control.transferred_bytes = control.transferred_bytes.saturating_add(len);
        *downloaded = downloaded.saturating_add(len);
        Some(at)
    }
}

/// A connection that is done with its range leaves the file divided, and loses
/// no progress.
pub proof fn law_finishing_keeps_division(
    c: CoordState,
    i: int,
    connection_id: u32,
    after: CoordState,
    work: Option<usize>,
)
    requires
        is_state(c),
        c.schedulable(),
        divides(c.ranges, c.total),
        0 <= i < c.ranges.len(),
        with_finished(c, i).work_outcome(connection_id, after, work),
    ensures
        divides(after.ranges, c.total),
        total_done(after.ranges) == total_done(c.ranges),
{
    let r = ActiveRange { status: RANGE_STATUS_FINISHED, ..c.ranges[i] };
    assert(c.ranges[i].in_order(c.total));
    lemma_reassigned_divides(c.ranges, c.total, i, r);
    lemma_sums_update(c.ranges, i, r);
    law_work_keeps_division(with_finished(c, i), connection_id, after, work);
}

} // verus!
