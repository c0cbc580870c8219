//! The byte ranges that connections work on.

use vstd::prelude::*;
use crate::units::{max_int, min_int, min_u64, saturated, saturating_mul_u64, MB};

verus! {

pub const RANGE_STATUS_PENDING: u8 = 0;

pub const RANGE_STATUS_ACTIVE: u8 = 1;

pub const RANGE_STATUS_FINISHED: u8 = 2;

/// The owner of a range that no connection holds.
pub const UNASSIGNED_CONNECTION: u32 = u32::MAX;

/// A range of the file, from `byte_start` up to `end`. Everything before
/// `cursor` has been received.
#[derive(Debug, Clone, Copy, PartialEq, Eq)]
pub struct ActiveRange {
    pub id: u64,
    pub label_start_mb: u64,
    pub label_end_mb: u64,
    pub byte_start: u64,
    pub assigned_to: u32,
    pub cursor: u64,
    pub end: u64,
    pub parent_range_id: Option<u64>,
    pub status: u8,
    pub last_sample_cursor: u64,
    pub last_sample_at_ms: u64,
    pub recent_speed_bps: u64,
}

impl ActiveRange {
    /// Bytes between the cursor and the end.
    pub open spec fn remaining(self) -> int {
        max_int(self.end - self.cursor, 0)
    }

    /// Bytes received.
    pub open spec fn done(self) -> int {
        max_int(min_int(self.cursor as int, self.end as int) - self.byte_start, 0)
    }

    /// The range holds `b`.
    pub open spec fn holds(self, b: int) -> bool {
        self.byte_start <= b < self.end
    }

    /// The bounds are in order and within a file of `total` bytes.
    pub open spec fn in_order(self, total: int) -> bool {
        self.byte_start <= self.cursor <= self.end <= total
    }

    /// The range in the hands of `connection_id`.
    pub open spec fn taken_by(self, connection_id: u32) -> ActiveRange {
        ActiveRange { assigned_to: connection_id, status: RANGE_STATUS_ACTIVE, ..self }
    }

    /// The range given back at `cursor`.
    pub open spec fn given_back(self, cursor: u64) -> ActiveRange {
        ActiveRange { cursor, assigned_to: UNASSIGNED_CONNECTION, status: RANGE_STATUS_PENDING, ..self }
    }

    pub fn remaining_bytes(&self) -> (r: u64)
        ensures
            r == self.remaining(),
    {
        self.end.saturating_sub(self.cursor)
    }

    /// Gives the range to `connection_id`.
    pub fn assign(&mut self, connection_id: u32)
        ensures
            *final(self) == old(self).taken_by(connection_id),
    {
        self.assigned_to = connection_id;
        self.status = RANGE_STATUS_ACTIVE;
    }

    /// Puts the range back for any connection to continue at `local_cursor`.
    pub fn relinquish_range(&mut self, local_cursor: u64)
        ensures
            *final(self) == old(self).given_back(local_cursor),
    {
        self.cursor = local_cursor;
        self.assigned_to = UNASSIGNED_CONNECTION;
        self.status = RANGE_STATUS_PENDING;
    }

    /// The speed sample that follows from having reached `current_cursor` at
    /// `now_ms`: the first call starts a sample; a sample of 250 ms or more
    /// with an advance gives the speed and starts the next one.
    pub open spec fn sampled(self, current_cursor: u64, now_ms: u64) -> ActiveRange {
        let elapsed = max_int(now_ms - self.last_sample_at_ms, 0);
        let advanced = max_int(current_cursor - self.last_sample_cursor, 0);
        if self.last_sample_at_ms == 0 {
            ActiveRange { last_sample_at_ms: now_ms, last_sample_cursor: current_cursor, ..self }
        } else if elapsed < 250 || advanced == 0 {
            self
        } else {
            ActiveRange {
                recent_speed_bps: #[verifier::truncate] ((advanced * 1000 / elapsed) as u64),
                last_sample_at_ms: now_ms,
                last_sample_cursor: current_cursor,
                ..self
            }
        }
    }

    pub fn update_range_speed_sample(&mut self, current_cursor: u64, now_ms: u64)
        ensures
            *final(self) == old(self).sampled(current_cursor, now_ms),
    {
        let last_at: u64 = self.last_sample_at_ms;
        let last_cursor: u64 = self.last_sample_cursor;
        if last_at == 0 {
            self.last_sample_at_ms = now_ms;
            self.last_sample_cursor = current_cursor;
            return;
        }
        let elapsed_ms: u64 = now_ms.saturating_sub(last_at);
        let advanced: u64 = current_cursor.saturating_sub(last_cursor);
        if elapsed_ms < 250 || advanced == 0 {
            return;
        }
        let speed: u128 = (advanced as u128) * 1000 / (elapsed_ms as u128);
        assert(speed <= u64::MAX * 4) by (nonlinear_arith)
            requires
                speed == (advanced * 1000) / (elapsed_ms as int),
                elapsed_ms >= 250,
                advanced <= u64::MAX,
        ;
        self.recent_speed_bps = #[verifier::truncate] (speed as u64);
        self.last_sample_at_ms = now_ms;
        self.last_sample_cursor = current_cursor;
    }
}

/// Bytes received in all of `ranges`.
pub open spec fn total_done(ranges: Seq<ActiveRange>) -> int
    decreases ranges.len(),
{
    if ranges.len() == 0 {
        0
    } else {
        total_done(ranges.drop_last()) + ranges.last().done()
    }
}

/// Bytes that `ranges` span.
pub open spec fn total_span(ranges: Seq<ActiveRange>) -> int
    decreases ranges.len(),
{
    if ranges.len() == 0 {
        0
    } else {
        total_span(ranges.drop_last()) + (ranges.last().end - ranges.last().byte_start)
    }
}

/// Giving range `i` another value changes the sums by the difference.
pub proof fn lemma_sums_update(ranges: Seq<ActiveRange>, i: int, r: ActiveRange)
    requires
        0 <= i < ranges.len(),
    ensures
        total_done(ranges.update(i, r)) == total_done(ranges) - ranges[i].done() + r.done(),
        total_span(ranges.update(i, r)) == total_span(ranges) - (ranges[i].end - ranges[i].byte_start) + (r.end
            - r.byte_start),
    decreases ranges.len(),
{
    if i < ranges.len() - 1 {
        assert(ranges.update(i, r).drop_last() =~= ranges.drop_last().update(i, r));
        lemma_sums_update(ranges.drop_last(), i, r);
    } else {
        assert(ranges.update(i, r).drop_last() =~= ranges.drop_last());
    }
}

pub proof fn lemma_sums_push(ranges: Seq<ActiveRange>, r: ActiveRange)
    ensures
        total_done(ranges.push(r)) == total_done(ranges) + r.done(),
        total_span(ranges.push(r)) == total_span(ranges) + (r.end - r.byte_start),
{
    assert(ranges.push(r).drop_last() =~= ranges);
}

/// No more is received than the ranges span.
pub proof fn lemma_done_within_span(ranges: Seq<ActiveRange>)
    requires
        forall|i: int| 0 <= i < ranges.len() ==> (#[trigger] ranges[i]).byte_start <= ranges[i].end,
    ensures
        0 <= total_done(ranges) <= total_span(ranges),
    decreases ranges.len(),
{
    if ranges.len() > 0 {
        assert forall|i: int| 0 <= i < ranges.drop_last().len() implies (#[trigger] ranges.drop_last()[i]).byte_start
            <= ranges.drop_last()[i].end by {
            assert(ranges.drop_last()[i] == ranges[i]);
        }
        lemma_done_within_span(ranges.drop_last());
    }
}

proof fn lemma_done_take(ranges: Seq<ActiveRange>, i: int)
    requires
        0 <= i < ranges.len(),
    ensures
        total_done(ranges.take(i + 1)) == total_done(ranges.take(i)) + ranges[i].done(),
        0 <= total_done(ranges.take(i)) <= total_done(ranges.take(i + 1)) <= total_done(ranges),
    decreases ranges.len() - i,
{
    assert(ranges.take(i + 1).drop_last() =~= ranges.take(i));
    if i + 1 < ranges.len() {
        lemma_done_take(ranges, i + 1);
    } else {
        assert(ranges.take(i + 1) =~= ranges);
    }
    lemma_done_nonnegative(ranges.take(i));
}

proof fn lemma_done_nonnegative(ranges: Seq<ActiveRange>)
    ensures
        total_done(ranges) >= 0,
    decreases ranges.len(),
{
    if ranges.len() > 0 {
        lemma_done_nonnegative(ranges.drop_last());
    }
}

/// Whether the bytes received can be added up.
pub fn adds_up(ranges: &Vec<ActiveRange>) -> (r: bool)
    ensures
        r == (total_done(ranges@) <= u64::MAX),
{
    let mut sum: u64 = 0;
    let mut i: usize = 0;
    assert(ranges@.take(0) =~= Seq::empty());
    while i < ranges.len()
        invariant
            i <= ranges.len(),
            sum == total_done(ranges@.take(i as int)),
        decreases ranges.len() - i,
    {
        proof {
            lemma_done_take(ranges@, i as int);
        }
        let range: ActiveRange = ranges[i];
        match sum.checked_add(min_u64(range.cursor, range.end).saturating_sub(range.byte_start)) {
            Some(n) => {
                sum = n;
            },
            None => {
                return false;
            },
        }
        i = i + 1;
    }
    assert(ranges@.take(ranges.len() as int) =~= ranges@);
    true
}

/// The bytes received so far, at most `total_size`.
pub fn snapshot_downloaded(ranges: &Vec<ActiveRange>, total_size: u64) -> (r: u64)
    requires
        total_done(ranges@) <= u64::MAX,
    ensures
        r == min_int(total_done(ranges@), total_size as int),
{
    let mut sum: u64 = 0;
    let mut i: usize = 0;
    assert(ranges@.take(0) =~= Seq::empty());
    while i < ranges.len()
        invariant
            i <= ranges.len(),
            sum == total_done(ranges@.take(i as int)),
            total_done(ranges@) <= u64::MAX,
        decreases ranges.len() - i,
    {
        proof {
            lemma_done_take(ranges@, i as int);
        }
        let range: ActiveRange = ranges[i];
        sum = sum + min_u64(range.cursor, range.end).saturating_sub(range.byte_start);
        i = i + 1;
    }
    assert(ranges@.take(ranges.len() as int) =~= ranges@);
    min_u64(sum, total_size)
}

/// At least 95 of every 100 bytes have been received.
pub open spec fn in_tail_phase(downloaded: int, total: int) -> bool {
    total > 0 && saturated(downloaded * 100) >= saturated(total * 95)
}

pub fn is_tail_phase_bytes(downloaded: u64, total_size: u64) -> (r: bool)
    ensures
        r == in_tail_phase(downloaded as int, total_size as int),
{
    if total_size == 0 {
        return false;
    }
    saturating_mul_u64(downloaded, 100) >= saturating_mul_u64(total_size, 95)
}

/// How many bytes at least change hands: one megabyte in the tail phase, else
/// the borrow limit or the adaptive floor, whichever is more.
pub open spec fn effective_limit(tail: bool, borrow_limit: int, adaptive_floor: int) -> int {
    if tail {
        MB as int
    } else {
        max_int(borrow_limit, adaptive_floor)
    }
}

} // verus!
