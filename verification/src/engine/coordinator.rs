//! Which connection works on which part of the file.

use vstd::prelude::*;
use crate::engine::builders::{
    build_equal_ranges, build_fib_mb, build_phi_geometric_ranges, build_seed_ranges, choose_seed_start_idx, equal_cut,
    equal_lanes, fib_value, first_reaching, geometric_cut, geometric_ids, is_fib_table, is_first_reaching,
    is_plain_range, is_seed_count, is_seed_range, lemma_fib_increasing, lemma_fib_step, lemma_geometric_ids,
    lemma_table_grows, max_table_mb, RangeSpec, LIVE_SEED_FLOOR_MB,
};
use crate::engine::index_state::{bucket_total, IndexStateMap};
use crate::engine::median::{median, median_u64};
use crate::engine::metrics::SchedulerMetrics;
use crate::engine::ranges::{
    adds_up, effective_limit, in_tail_phase, is_tail_phase_bytes, snapshot_downloaded, total_done, ActiveRange,
    RANGE_STATUS_ACTIVE, RANGE_STATUS_FINISHED, RANGE_STATUS_PENDING, UNASSIGNED_CONNECTION,
};
use crate::engine::types::ScheduleMode;
use crate::units::{
    align_down, aligned_down, ceil_div, div_ceil_u64, max_int, max_u64, max_usize, min_int, saturated,
    saturating_mul_u64, MB,
};

verus! {

/// The block that cuts are rounded to: four megabytes.
pub const STORAGE_BLOCK_SIZE: u64 = 4194304;

/// The share of a range that is taken over, as a fraction near the golden ratio.
pub const GOLDEN_RATIO_NUM: u64 = 633;

pub const GOLDEN_RATIO_DEN: u64 = 1024;

/// Why a part of another connection's range is taken over.
#[derive(Debug, Clone, Copy, PartialEq, Eq, Structural)]
pub enum BorrowKind {
    Standard,
    Straggler,
    Tail,
}

impl BorrowKind {
    pub fn as_str(self) -> (r: &'static str)
        ensures
            r@ == match self {
                BorrowKind::Standard => "standard"@,
                BorrowKind::Straggler => "straggler"@,
                BorrowKind::Tail => "tail"@,
            },
    {
        match self {
            BorrowKind::Standard => "standard",
            BorrowKind::Straggler => "straggler",
            BorrowKind::Tail => "tail",
        }
    }
}

/// What is kept of one range between two runs.
#[derive(Debug, Clone, Copy, PartialEq, Eq)]
pub struct DlRangeSnapshot {
    pub id: u64,
    pub label_start_mb: u64,
    pub label_end_mb: u64,
    pub byte_start: u64,
    pub assigned_to: u32,
    pub cursor: u64,
    pub end: u64,
    pub parent_range_id: Option<u64>,
    pub status: u8,
}

/// What is kept of a coordinator between two runs.
#[derive(Debug, Clone)]
pub struct CoordinatorSnapshot {
    pub dl_ranges: Vec<DlRangeSnapshot>,
    pub next_unassigned_idx: usize,
    pub borrow_limit_bytes: u64,
    pub borrow_cursor: usize,
    pub next_range_id: u64,
    pub index_state_bits: Vec<u8>,
}

/// Why a coordinator cannot be set up.
#[derive(Debug, Clone, Copy, PartialEq, Eq, Structural)]
pub enum CoordinatorError {
    /// The download exceeds the support table.
    ExceedsRangeTable,
}

/// Hands the ranges of one file to connections.
#[derive(Debug)]
pub struct Coordinator {
    pub dl_ranges: Vec<ActiveRange>,
    pub next_unassigned_idx: usize,
    pub borrow_limit_bytes: u64,
    pub adaptive_minimum_steal_bytes: u64,
    pub borrow_cursor: usize,
    pub next_range_id: u64,
    pub total_size: u64,
    pub index_state: IndexStateMap,
    pub metrics: SchedulerMetrics,
}

/// What is told of a download at its end.
#[derive(Debug, Clone, Copy)]
pub struct CoordinatorSummary {
    pub total_size: u64,
    pub final_ranges: usize,
    pub vector_consumed: usize,
    pub index_state_buckets: usize,
    pub index_state_bytes: usize,
    pub completed_slices: u64,
}

/// The state of a coordinator.
pub struct CoordState {
    pub ranges: Seq<ActiveRange>,
    pub next_unassigned: int,
    pub borrow_limit: int,
    pub steal_floor: int,
    pub borrow_cursor: int,
    pub next_range_id: int,
    pub total: int,
    pub map_size: int,
    pub marks: Seq<u8>,
    pub metrics: SchedulerMetrics,
}

/// No connection holds the range.
pub open spec fn waiting() -> spec_fn(ActiveRange) -> bool {
    |r: ActiveRange| r.assigned_to == UNASSIGNED_CONNECTION
}

/// No connection holds the range, and bytes of it are missing.
pub open spec fn resumable() -> spec_fn(ActiveRange) -> bool {
    |r: ActiveRange|
        r.assigned_to == UNASSIGNED_CONNECTION && r.status == RANGE_STATUS_PENDING && r.cursor < r.end
}

/// `i` is the first position from `from` on whose range satisfies `p`.
pub open spec fn is_first(s: Seq<ActiveRange>, from: int, p: spec_fn(ActiveRange) -> bool, i: int) -> bool {
    &&& from <= i < s.len()
    &&& p(s[i])
    &&& forall|k: int| from <= k < i ==> !p(#[trigger] s[k])
}

/// No range from `from` on satisfies `p`.
pub open spec fn none_from(s: Seq<ActiveRange>, from: int, p: spec_fn(ActiveRange) -> bool) -> bool {
    forall|k: int| from <= k < s.len() ==> !p(#[trigger] s[k])
}

/// The position `offset` places after `cursor`, going round.
pub open spec fn around(cursor: int, offset: int, n: int) -> int {
    (cursor + offset) % n
}

/// Going round from `cursor`, the range `offset` places on is the first of
/// those with the most bytes left among the ranges that satisfy `p`.
pub open spec fn is_best(s: Seq<ActiveRange>, cursor: int, p: spec_fn(ActiveRange) -> bool, offset: int) -> bool {
    &&& 0 <= offset < s.len()
    &&& p(s[around(cursor, offset, s.len() as int)])
    &&& forall|o: int|
        0 <= o < s.len() && p(s[#[trigger] around(cursor, o, s.len() as int)]) ==> {
            let other = s[around(cursor, o, s.len() as int)].remaining();
            let best = s[around(cursor, offset, s.len() as int)].remaining();
            if o < offset {
                other < best
            } else {
                other <= best
            }
        }
}

/// No range satisfies `p`.
pub open spec fn none_around(s: Seq<ActiveRange>, cursor: int, p: spec_fn(ActiveRange) -> bool) -> bool {
    forall|o: int| 0 <= o < s.len() ==> !p(s[#[trigger] around(cursor, o, s.len() as int)])
}

/// Another connection than `connection_id` is working on `r`.
pub open spec fn busy_elsewhere(r: ActiveRange, connection_id: u32) -> bool {
    &&& r.assigned_to != connection_id
    &&& r.assigned_to != UNASSIGNED_CONNECTION
    &&& r.status == RANGE_STATUS_ACTIVE
}

/// The known speeds of the ranges that others work on and that are large
/// enough to count.
pub open spec fn speed_samples(ranges: Seq<ActiveRange>, connection_id: u32, limit: int) -> Seq<u64>
    decreases ranges.len(),
{
    if ranges.len() == 0 {
        Seq::empty()
    } else {
        let before = speed_samples(ranges.drop_last(), connection_id, limit);
        let r = ranges.last();
        if busy_elsewhere(r, connection_id) && r.remaining() >= limit && r.recent_speed_bps > 0 {
            before.push(r.recent_speed_bps)
        } else {
            before
        }
    }
}

/// Another connection works on the range, and more than twice the limit is left.
pub open spec fn divisible(connection_id: u32, limit: int) -> spec_fn(ActiveRange) -> bool {
    |r: ActiveRange| busy_elsewhere(r, connection_id) && r.remaining() > saturated(limit * 2)
}

/// A divisible range that advances at no more than 60 per cent of the median
/// speed and has at least three times the limit left.
pub open spec fn lagging(connection_id: u32, limit: int, median_speed: u64) -> spec_fn(ActiveRange) -> bool {
    |r: ActiveRange|
        {
            &&& busy_elsewhere(r, connection_id)
            &&& r.remaining() > saturated(limit * 2)
            &&& median_speed > 0
            &&& r.recent_speed_bps > 0
            &&& saturated(r.recent_speed_bps * 100) <= saturated(median_speed * 60)
            &&& r.remaining() >= saturated(limit * 3)
        }
}

/// The lagging ranges, or all the divisible ones.
pub open spec fn wanted(lag_only: bool, connection_id: u32, limit: int, median_speed: u64) -> spec_fn(
    ActiveRange,
) -> bool {
    if lag_only {
        lagging(connection_id, limit, median_speed)
    } else {
        divisible(connection_id, limit)
    }
}

/// A range that starts from a cut of the file.
pub open spec fn fresh_range(spec: RangeSpec) -> ActiveRange {
    ActiveRange {
        id: (spec.id + 1) as u64,
        label_start_mb: spec.label_start_mb,
        label_end_mb: spec.label_end_mb,
        byte_start: spec.byte_start,
        assigned_to: UNASSIGNED_CONNECTION,
        cursor: spec.byte_start,
        end: spec.byte_end,
        parent_range_id: None,
        status: RANGE_STATUS_PENDING,
        last_sample_cursor: spec.byte_start,
        last_sample_at_ms: 0,
        recent_speed_bps: 0,
    }
}

/// A range that continues from a snapshot: unless it is finished, it waits
/// for a connection, whoever held it before.
pub open spec fn resumed_range(s: DlRangeSnapshot) -> ActiveRange {
    ActiveRange {
        id: s.id,
        label_start_mb: s.label_start_mb,
        label_end_mb: s.label_end_mb,
        byte_start: s.byte_start,
        assigned_to: if s.status == RANGE_STATUS_FINISHED { s.assigned_to } else { UNASSIGNED_CONNECTION },
        cursor: s.cursor,
        end: s.end,
        parent_range_id: s.parent_range_id,
        status: if s.status == RANGE_STATUS_FINISHED { RANGE_STATUS_FINISHED } else { RANGE_STATUS_PENDING },
        last_sample_cursor: s.cursor,
        last_sample_at_ms: 0,
        recent_speed_bps: 0,
    }
}

/// What a snapshot keeps of `r`.
pub open spec fn kept_range(r: ActiveRange) -> DlRangeSnapshot {
    DlRangeSnapshot {
        id: r.id,
        label_start_mb: r.label_start_mb,
        label_end_mb: r.label_end_mb,
        byte_start: r.byte_start,
        assigned_to: r.assigned_to,
        cursor: r.cursor,
        end: r.end,
        parent_range_id: r.parent_range_id,
        status: r.status,
    }
}

/// What is kept of a coordinator between two runs, as it is described.
#[verifier::ext_equal]
pub struct SnapshotView {
    pub ranges: Seq<DlRangeSnapshot>,
    pub next_unassigned: int,
    pub borrow_limit: int,
    pub borrow_cursor: int,
    pub next_range_id: int,
    pub marks: Seq<u8>,
}

impl CoordinatorSnapshot {
    pub open spec fn view(&self) -> SnapshotView {
        SnapshotView {
            ranges: self.dl_ranges@,
            next_unassigned: self.next_unassigned_idx as int,
            borrow_limit: self.borrow_limit_bytes as int,
            borrow_cursor: self.borrow_cursor as int,
            next_range_id: self.next_range_id as int,
            marks: self.index_state_bits@,
        }
    }
}

/// What is kept of a state.
pub open spec fn kept_state(s: CoordState) -> SnapshotView {
    SnapshotView {
        ranges: s.ranges.map_values(|r: ActiveRange| kept_range(r)),
        next_unassigned: s.next_unassigned,
        borrow_limit: s.borrow_limit,
        borrow_cursor: s.borrow_cursor,
        next_range_id: s.next_range_id,
        marks: s.marks,
    }
}

/// The state that continues from what was kept. The marks are cut, or filled
/// up with zeros, to the size of the file.
pub open spec fn resumed_state(k: SnapshotView, total: int, steal_floor: int, metrics: SchedulerMetrics) -> CoordState {
    CoordState {
        ranges: k.ranges.map_values(|r: DlRangeSnapshot| resumed_range(r)),
        next_unassigned: k.next_unassigned,
        borrow_limit: k.borrow_limit,
        steal_floor,
        borrow_cursor: k.borrow_cursor,
        next_range_id: k.next_range_id,
        total,
        map_size: total,
        marks: Seq::new(
            bucket_total(total) as nat,
            |i: int|
                if i < k.marks.len() {
                    k.marks[i]
                } else {
                    0u8
                },
        ),
        metrics,
    }
}

/// Some value of the support table covers `total` bytes.
pub open spec fn fits_range_table(total: int) -> bool {
    exists|i: nat|
        #![trigger fib_value(i)]
        fib_value(i) <= max_table_mb() && fib_value(i) >= max_int(ceil_div(total, MB as int), 1)
}

/// `seeds` are cut at the values of the support table.
pub open spec fn is_table_plan(total: int, lanes: int, dry_run: bool, seeds: Seq<RangeSpec>) -> bool {
    exists|table: Seq<u64>, start: int, support: int|
        {
            &&& is_fib_table(table)
            &&& is_first_reaching(table, max_int(ceil_div(total, MB as int), 1), support)
            &&& seed_start(table, support, lanes, dry_run, start)
            &&& #[trigger] is_seed_count(table, start, support, total, seeds.len() as int)
            &&& forall|k: int| 0 <= k < seeds.len() ==> is_seed_range(
                table,
                start,
                total,
                seeds.len() as int,
                k,
                #[trigger] seeds[k],
            )
        }
}

/// `seeds` are the first ranges of a file of `total` bytes. The support table
/// has no step within a megabyte: cut at its values, a file of a megabyte or
/// less has no range.
pub open spec fn is_seed_plan(
    mode: ScheduleMode,
    total: int,
    connections: int,
    dry_run: bool,
    block_counts: Seq<u64>,
    seeds: Seq<RangeSpec>,
) -> bool {
    let lanes = max_int(connections, 1);
    match mode {
        ScheduleMode::Fib => is_table_plan(total, lanes, dry_run, seeds),
        ScheduleMode::FibAdaptive => if total > 0 && lanes > 1 && geometric_cut(
            total,
            block_counts,
            STORAGE_BLOCK_SIZE as int,
            1,
        ) < STORAGE_BLOCK_SIZE {
            is_equal_plan(total, lanes, seeds)
        } else {
            let ids = geometric_ids(total, block_counts, STORAGE_BLOCK_SIZE as int, lanes);
            if total == 0 {
                seeds.len() == 0
            } else {
                &&& seeds.len() == ids.len()
                &&& forall|k: int| 0 <= k < seeds.len() ==> is_plain_range(
                    #[trigger] seeds[k],
                    ids[k],
                    geometric_cut(total, block_counts, STORAGE_BLOCK_SIZE as int, ids[k]),
                    geometric_cut(total, block_counts, STORAGE_BLOCK_SIZE as int, ids[k] + 1),
                )
            }
        },
        ScheduleMode::Equal => is_equal_plan(total, lanes, seeds),
    }
}

/// `start` is where the seed ranges begin in `table`: at the front in a dry
/// run, else at the first value of `LIVE_SEED_FLOOR_MB` or more, but early
/// enough to leave a range for each of `lanes`.
pub open spec fn seed_start(table: Seq<u64>, support: int, lanes: int, dry_run: bool, start: int) -> bool {
    if dry_run || support == 0 {
        start == 0
    } else {
        exists|d: int| #[trigger]
            is_first_reaching(table, LIVE_SEED_FLOOR_MB as int, d) && start == min_int(d, max_int(support - lanes, 0))
    }
}

pub open spec fn is_equal_plan(total: int, lanes: int, seeds: Seq<RangeSpec>) -> bool {
    &&& seeds.len() == equal_lanes(total, lanes)
    &&& forall|k: int| 0 <= k < seeds.len() ==> is_plain_range(
        #[trigger] seeds[k],
        k,
        equal_cut(total, seeds.len() as int, k),
        equal_cut(total, seeds.len() as int, k + 1),
    )
}

impl CoordState {
    /// Bytes received.
    pub open spec fn downloaded(self) -> int {
        min_int(total_done(self.ranges), self.total)
    }

    pub open spec fn tail(self) -> bool {
        in_tail_phase(self.downloaded(), self.total)
    }

    /// The least that is taken over from another connection.
    pub open spec fn limit(self) -> int {
        effective_limit(self.tail(), self.borrow_limit, self.steal_floor)
    }

    /// The marks are those of the file.
    pub open spec fn map_fits(self) -> bool {
        self.map_size == self.total && self.marks.len() == bucket_total(self.total)
    }

    /// The numbers that scheduling computes with stay within their types.
    pub open spec fn schedulable(self) -> bool {
        &&& total_done(self.ranges) <= u64::MAX
        &&& self.next_range_id < u64::MAX
        &&& self.borrow_cursor + self.ranges.len() <= usize::MAX
    }

    /// Range `i` handed to `connection_id` as it stands.
    pub open spec fn handed_out(self, i: int, connection_id: u32, next_unassigned: int) -> CoordState {
        CoordState {
            ranges: self.ranges.update(i, self.ranges[i].taken_by(connection_id)),
            next_unassigned,
            metrics: SchedulerMetrics {
                direct_assignments: saturated(self.metrics.direct_assignments + 1) as u64,
                ..self.metrics
            },
            ..self
        }
    }

    /// `connection_id` should take over a part of range `idx`, for the reason
    /// `kind`: the largest lagging range if there is one, else the largest
    /// divisible one.
    pub open spec fn selects(self, connection_id: u32, idx: int, kind: BorrowKind) -> bool {
        let m = median(speed_samples(self.ranges, connection_id, self.limit()));
        let lag = lagging(connection_id, self.limit(), m);
        let div = divisible(connection_id, self.limit());
        ||| kind == BorrowKind::Straggler && exists|o: int| #[trigger]
            is_best(self.ranges, self.borrow_cursor, lag, o) && idx == around(
                self.borrow_cursor,
                o,
                self.ranges.len() as int,
            )
        ||| kind == (if self.tail() { BorrowKind::Tail } else { BorrowKind::Standard }) && none_around(
            self.ranges,
            self.borrow_cursor,
            lag,
        ) && exists|o: int| #[trigger]
            is_best(self.ranges, self.borrow_cursor, div, o) && idx == around(
                self.borrow_cursor,
                o,
                self.ranges.len() as int,
            )
    }

    /// Nothing can be taken over.
    pub open spec fn selects_none(self, connection_id: u32) -> bool {
        let m = median(speed_samples(self.ranges, connection_id, self.limit()));
        &&& none_around(self.ranges, self.borrow_cursor, lagging(connection_id, self.limit(), m))
        &&& none_around(self.ranges, self.borrow_cursor, divisible(connection_id, self.limit()))
    }

    /// How much of `remaining` bytes is to be taken over.
    pub open spec fn share(remaining: int, kind: BorrowKind) -> int {
        match kind {
            BorrowKind::Standard => remaining * GOLDEN_RATIO_NUM / (GOLDEN_RATIO_DEN as int),
            _ => remaining / 2,
        }
    }

    /// Where range `idx` is cut in two.
    pub open spec fn cut(self, idx: int, kind: BorrowKind) -> int {
        let r = self.ranges[idx];
        aligned_down(r.end - Self::share(r.remaining(), kind), MB as int)
    }

    /// Both parts of range `idx` are large enough.
    pub open spec fn splits(self, idx: int, kind: BorrowKind) -> bool {
        let r = self.ranges[idx];
        &&& r.remaining() > saturated(self.limit() * 2)
        &&& self.cut(idx, kind) > r.cursor + self.limit()
        &&& r.end - self.cut(idx, kind) >= self.limit()
    }

    /// Range `idx` cut in two, the second part in the hands of `connection_id`.
    pub open spec fn split(self, idx: int, connection_id: u32, kind: BorrowKind) -> CoordState {
        let r = self.ranges[idx];
        let at = self.cut(idx, kind) as u64;
        let taken = ActiveRange {
            id: self.next_range_id as u64,
            byte_start: at,
            assigned_to: connection_id,
            cursor: at,
            parent_range_id: Some(r.id),
            status: RANGE_STATUS_ACTIVE,
            last_sample_cursor: at,
            last_sample_at_ms: 0,
            recent_speed_bps: 0,
            ..r
        };
        CoordState {
            ranges: self.ranges.update(idx, ActiveRange { end: at, ..r }).push(taken),
            next_range_id: self.next_range_id + 1,
            borrow_cursor: idx + 1,
            metrics: SchedulerMetrics {
                borrow_assignments: saturated(self.metrics.borrow_assignments + 1) as u64,
                bytes_borrowed: saturated(self.metrics.bytes_borrowed + (r.end - at)) as u64,
                straggler_splits: saturated(
                    self.metrics.straggler_splits + if kind == BorrowKind::Straggler { 1int } else { 0 },
                ) as u64,
                tail_splits: saturated(
                    self.metrics.tail_splits + if kind == BorrowKind::Tail { 1int } else { 0 },
                ) as u64,
                ..self.metrics
            },
            ..self
        }
    }

    /// What cutting range `idx` comes to: `after` is the state that follows
    /// and `work` the range that was gained.
    pub open spec fn split_outcome(
        self,
        idx: int,
        connection_id: u32,
        kind: BorrowKind,
        after: CoordState,
        work: Option<usize>,
    ) -> bool {
        if self.splits(idx, kind) {
            after == self.split(idx, connection_id, kind) && work == Some(self.ranges.len() as usize)
        } else {
            after == self && work == None::<usize>
        }
    }

    pub open spec fn borrow_outcome(self, connection_id: u32, after: CoordState, work: Option<usize>) -> bool {
        &&& self.selects_none(connection_id) ==> after == self && work == None::<usize>
        &&& forall|idx: int, kind: BorrowKind| #[trigger]
            self.selects(connection_id, idx, kind) ==> self.split_outcome(idx, connection_id, kind, after, work)
        &&& self.selects_none(connection_id) || exists|idx: int, kind: BorrowKind| #[trigger]
            self.selects(connection_id, idx, kind)
    }

    /// What a request for work comes to: the next range that nobody has had
    /// yet; if there is none, the first one that was given back; if there is
    /// none, a part of a range that another connection works on.
    pub open spec fn work_outcome(self, connection_id: u32, after: CoordState, work: Option<usize>) -> bool {
        let passed = max_int(self.next_unassigned, self.ranges.len() as int);
        &&& forall|i: int| #[trigger]
            is_first(self.ranges, self.next_unassigned, waiting(), i) ==> work == Some(i as usize) && after
                == self.handed_out(i, connection_id, i + 1)
        &&& none_from(self.ranges, self.next_unassigned, waiting()) ==> {
            &&& forall|i: int| #[trigger]
                is_first(self.ranges, 0, resumable(), i) ==> work == Some(i as usize) && after == self.handed_out(
                    i,
                    connection_id,
                    passed,
                )
            &&& none_from(self.ranges, 0, resumable()) ==> (CoordState {
                next_unassigned: passed,
                ..self
            }).borrow_outcome(connection_id, after, work)
            &&& none_from(self.ranges, 0, resumable()) || exists|i: int| #[trigger]
                is_first(self.ranges, 0, resumable(), i)
        }
        &&& none_from(self.ranges, self.next_unassigned, waiting()) || exists|i: int| #[trigger]
            is_first(self.ranges, self.next_unassigned, waiting(), i)
    }
}

impl Coordinator {
    pub open spec fn view(&self) -> CoordState {
        CoordState {
            ranges: self.dl_ranges@,
            next_unassigned: self.next_unassigned_idx as int,
            borrow_limit: self.borrow_limit_bytes as int,
            steal_floor: self.adaptive_minimum_steal_bytes as int,
            borrow_cursor: self.borrow_cursor as int,
            next_range_id: self.next_range_id as int,
            total: self.total_size as int,
            map_size: self.index_state.total_size as int,
            marks: self.index_state.buckets@,
            metrics: self.metrics,
        }
    }

    /// The marks are those of the file.
    pub open spec fn wf(&self) -> bool {
        self@.map_fits()
    }

    /// Notes the steal floor that the download ended with, and sums up.
    pub fn log_summary(&mut self, total_size: u64) -> (r: CoordinatorSummary)
        requires
            old(self).index_state.wf(),
        ensures
            final(self)@ == (CoordState {
                metrics: SchedulerMetrics {
                    adaptive_min_steal_bytes_final: old(self).adaptive_minimum_steal_bytes,
                    ..old(self).metrics
                },
                ..old(self)@
            }),
            r == (CoordinatorSummary {
                total_size,
                final_ranges: old(self).dl_ranges@.len() as usize,
                vector_consumed: old(self).next_unassigned_idx,
                index_state_buckets: old(self).index_state.buckets@.len() as usize,
                index_state_bytes: old(self).index_state.buckets@.len() as usize,
                completed_slices: old(self).index_state.completed() as u64,
            }),
    {
        self.metrics.adaptive_min_steal_bytes_final = self.adaptive_minimum_steal_bytes;
        CoordinatorSummary {
            total_size,
            final_ranges: self.dl_ranges.len(),
            vector_consumed: self.next_unassigned_idx,
            index_state_buckets: self.index_state.bucket_count(),
            index_state_bytes: self.index_state.storage_bytes(),
            completed_slices: self.index_state.completed_slices(),
        }
    }

    pub fn is_tail_phase(&self) -> (r: bool)
        requires
            self@.schedulable(),
        ensures
            r == self@.tail(),
    {
        is_tail_phase_bytes(snapshot_downloaded(&self.dl_ranges, self.total_size), self.total_size)
    }

    pub fn effective_borrow_limit_bytes(&self) -> (r: u64)
        requires
            self@.schedulable(),
        ensures
            r == self@.limit(),
    {
        if self.is_tail_phase() {
            MB
        } else {
            max_u64(self.borrow_limit_bytes, self.adaptive_minimum_steal_bytes)
        }
    }

    /// The speeds that the median is taken of.
    fn active_speeds(&self, connection_id: u32, limit: u64) -> (speeds: Vec<u64>)
        ensures
            speeds@ == speed_samples(self.dl_ranges@, connection_id, limit as int),
    {
        let mut speeds: Vec<u64> = Vec::new();
        let mut i: usize = 0;
        assert(self.dl_ranges@.take(0) =~= Seq::empty());
        while i < self.dl_ranges.len()
            invariant
                i <= self.dl_ranges@.len(),
                speeds@ == speed_samples(self.dl_ranges@.take(i as int), connection_id, limit as int),
            decreases self.dl_ranges@.len() - i,
        {
            let range: ActiveRange = self.dl_ranges[i];
            assert(self.dl_ranges@.take(i + 1).drop_last() =~= self.dl_ranges@.take(i as int));
            if range.assigned_to != connection_id && range.assigned_to != UNASSIGNED_CONNECTION && range.status
                == RANGE_STATUS_ACTIVE && range.remaining_bytes() >= limit && range.recent_speed_bps > 0 {
                speeds.push(range.recent_speed_bps);
            }
            i = i + 1;
        }
        assert(self.dl_ranges@.take(self.dl_ranges@.len() as int) =~= self.dl_ranges@);
        speeds
    }

    /// Going round from the borrow cursor, the first of the divisible ranges
    /// with the most bytes left, among the lagging ones only if `median_speed`
    /// is given.
    fn best_candidate(&self, connection_id: u32, limit: u64, lag_only: bool, median_speed: u64) -> (r: Option<usize>)
        requires
            self.borrow_cursor + self.dl_ranges@.len() <= usize::MAX,
        ensures
            ({
                let p = wanted(lag_only, connection_id, limit as int, median_speed);
                match r {
                    Some(idx) => idx < self.dl_ranges@.len() && exists|o: int| #[trigger]
                        is_best(self.dl_ranges@, self.borrow_cursor as int, p, o) && idx == around(
                            self.borrow_cursor as int,
                            o,
                            self.dl_ranges@.len() as int,
                        ),
                    None => none_around(self.dl_ranges@, self.borrow_cursor as int, p),
                }
            }),
    {
        let total: usize = self.dl_ranges.len();
        let ghost s = self.dl_ranges@;
        let ghost cursor = self.borrow_cursor as int;
        let ghost p = wanted(lag_only, connection_id, limit as int, median_speed);
        let mut best: Option<(usize, u64)> = None;
        let ghost mut best_offset: int = 0;
        let mut offset: usize = 0;
        while offset < total
            invariant
                total == s.len(),
                s == self.dl_ranges@,
                cursor == self.borrow_cursor,
                self.borrow_cursor + self.dl_ranges@.len() <= usize::MAX,
                p == wanted(lag_only, connection_id, limit as int, median_speed),
                offset <= total,
                match best {
                    Some((idx, remaining)) => {
                        &&& 0 <= best_offset < offset
                        &&& idx == around(cursor, best_offset, s.len() as int)
                        &&& idx < s.len()
                        &&& p(s[idx as int])
                        &&& remaining == s[idx as int].remaining()
                        &&& forall|o: int|
                            0 <= o < offset && p(s[#[trigger] around(cursor, o, s.len() as int)]) ==> {
                                let other = s[around(cursor, o, s.len() as int)].remaining();
                                if o < best_offset {
                                    other < remaining
                                } else {
                                    other <= remaining
                                }
                            }
                    },
                    None => forall|o: int|
                        0 <= o < offset ==> !p(s[#[trigger] around(cursor, o, s.len() as int)]),
                },
            decreases total - offset,
        {
            let idx: usize = (self.borrow_cursor + offset) % total;
            assert(idx == around(cursor, offset as int, s.len() as int));
            let active: ActiveRange = self.dl_ranges[idx];
            let remaining: u64 = active.remaining_bytes();
            let speed: u64 = active.recent_speed_bps;
            let fits: bool = active.assigned_to != connection_id && active.assigned_to != UNASSIGNED_CONNECTION
                && active.status == RANGE_STATUS_ACTIVE && remaining > saturating_mul_u64(limit, 2) && (!lag_only || (
            median_speed > 0 && speed > 0 && saturating_mul_u64(speed, 100) <= saturating_mul_u64(median_speed, 60)
                && remaining >= saturating_mul_u64(limit, 3)));
            assert(fits == p(s[idx as int]));
            if fits {
                let better: bool = match best {
                    Some((_, best_remaining)) => best_remaining < remaining,
                    None => true,
                };
                if better {
                    best = Some((idx, remaining));
                    proof {
                        best_offset = offset as int;
                    }
                }
            }
            offset = offset + 1;
        }
        match best {
            Some((idx, _)) => {
                assert(is_best(s, cursor, p, best_offset));
                Some(idx)
            },
            None => None,
        }
    }

    /// The range that `connection_id` should take a part of, and why.
    pub fn select_borrow_candidate(&self, connection_id: u32) -> (r: Option<(usize, BorrowKind)>)
        requires
            self@.schedulable(),
        ensures
            match r {
                Some((idx, kind)) => idx < self.dl_ranges@.len() && self@.selects(connection_id, idx as int, kind),
                None => self@.selects_none(connection_id),
            },
    {
        let limit: u64 = self.effective_borrow_limit_bytes();
        let median_speed: u64 = median_u64(&self.active_speeds(connection_id, limit));
        match self.best_candidate(connection_id, limit, true, median_speed) {
            Some(idx) => {
                return Some((idx, BorrowKind::Straggler));
            },
            None => {},
        }
        match self.best_candidate(connection_id, limit, false, 0) {
            Some(idx) => {
                let kind = if self.is_tail_phase() {
                    BorrowKind::Tail
                } else {
                    BorrowKind::Standard
                };
                Some((idx, kind))
            },
            None => None,
        }
    }

    /// Cuts range `idx` in two and gives the second part to `connection_id`,
    /// if both parts are large enough.
    pub fn split_active_range(&mut self, idx: usize, connection_id: u32, kind: BorrowKind) -> (work: Option<usize>)
        requires
            idx < old(self).dl_ranges@.len(),
            old(self)@.schedulable(),
        ensures
            old(self)@.split_outcome(idx as int, connection_id, kind, final(self)@, work),
    {
        let active: ActiveRange = self.dl_ranges[idx];
        let start: u64 = active.cursor;
        let end: u64 = active.end;
        let limit: u64 = self.effective_borrow_limit_bytes();
        let remaining: u64 = active.remaining_bytes();
        if remaining <= saturating_mul_u64(limit, 2) {
            return None;
        }
        let steal_size: u64 = match kind {
            BorrowKind::Straggler => remaining / 2,
            BorrowKind::Tail => remaining / 2,
            BorrowKind::Standard => ((remaining as u128) * (GOLDEN_RATIO_NUM as u128) / (GOLDEN_RATIO_DEN as u128)) as u64,
        };
        assert(remaining * GOLDEN_RATIO_NUM / (GOLDEN_RATIO_DEN as int) <= remaining);
        assert(steal_size <= remaining);
        let aligned_split: u64 = align_down(end - steal_size, MB);
        if aligned_split <= start + limit {
            return None;
        }
        let stolen_size: u64 = end - aligned_split;
        if stolen_size < limit {
            return None;
        }
        let mut donor: ActiveRange = active;
        donor.end = aligned_split;
        let borrowed = ActiveRange {
            id: self.next_range_id,
            label_start_mb: active.label_start_mb,
            label_end_mb: active.label_end_mb,
            byte_start: aligned_split,
            assigned_to: connection_id,
            cursor: aligned_split,
            end,
            parent_range_id: Some(active.id),
            status: RANGE_STATUS_ACTIVE,
            last_sample_cursor: aligned_split,
            last_sample_at_ms: 0,
            recent_speed_bps: 0,
        };
        let new_idx: usize = self.dl_ranges.len();
        self.dl_ranges.set(idx, donor);
        self.dl_ranges.push(borrowed);
        self.next_range_id = self.next_range_id + 1;
        SchedulerMetrics::add(&mut self.metrics.borrow_assignments, 1);
        SchedulerMetrics::add(&mut self.metrics.bytes_borrowed, stolen_size);
        if kind == BorrowKind::Straggler {
            SchedulerMetrics::add(&mut self.metrics.straggler_splits, 1);
        }
        if kind == BorrowKind::Tail {
            SchedulerMetrics::add(&mut self.metrics.tail_splits, 1);
        }
        self.borrow_cursor = idx + 1;
        Some(new_idx)
    }

    /// Takes a part of another connection's range over.
    pub fn borrow_work(&mut self, connection_id: u32) -> (work: Option<usize>)
        requires
            old(self)@.schedulable(),
        ensures
            old(self)@.borrow_outcome(connection_id, final(self)@, work),
    {
        match self.select_borrow_candidate(connection_id) {
            Some((idx, kind)) => {
                proof {
                    lemma_selection_unique(self@, connection_id, idx as int, kind);
                }
                self.split_active_range(idx, connection_id, kind)
            },
            None => {
                proof {
                    lemma_none_selected(self@, connection_id);
                }
                None
            },
        }
    }
}

/// The ranges that a plan starts with.
fn start_ranges(seeds: &Vec<RangeSpec>) -> (ranges: Vec<ActiveRange>)
    requires
        forall|k: int| 0 <= k < seeds@.len() ==> (#[trigger] seeds@[k]).id < u64::MAX,
    ensures
        ranges@ == seeds@.map_values(|spec: RangeSpec| fresh_range(spec)),
{
    let mut ranges: Vec<ActiveRange> = Vec::new();
    let mut i: usize = 0;
    while i < seeds.len()
        invariant
            i <= seeds@.len(),
            ranges@.len() == i,
            forall|k: int| 0 <= k < seeds@.len() ==> (#[trigger] seeds@[k]).id < u64::MAX,
            forall|k: int| 0 <= k < i ==> #[trigger] ranges@[k] == fresh_range(seeds@[k]),
        decreases seeds@.len() - i,
    {
        let spec: RangeSpec = seeds[i];
        ranges.push(
            ActiveRange {
                id: spec.id + 1,
                label_start_mb: spec.label_start_mb,
                label_end_mb: spec.label_end_mb,
                byte_start: spec.byte_start,
                assigned_to: UNASSIGNED_CONNECTION,
                cursor: spec.byte_start,
                end: spec.byte_end,
                parent_range_id: None,
                status: RANGE_STATUS_PENDING,
                last_sample_cursor: spec.byte_start,
                last_sample_at_ms: 0,
                recent_speed_bps: 0,
            },
        );
        i = i + 1;
    }
    ranges
}

impl Coordinator {
    /// A coordinator for a file of `total_size` bytes that nothing is there of
    /// yet. `phi_block_counts` holds the cut points of the adaptive mode, in
    /// blocks.
    pub fn new(
        total_size: u64,
        borrow_limit_mb: u64,
        connections: usize,
        dry_run: bool,
        schedule_mode: ScheduleMode,
        metrics: SchedulerMetrics,
        adaptive_minimum_steal_bytes: u64,
        phi_block_counts: &[u64],
    ) -> (r: Result<Coordinator, CoordinatorError>)
        requires
            borrow_limit_mb * MB <= u64::MAX,
            bucket_total(total_size as int) <= usize::MAX,
            schedule_mode == ScheduleMode::FibAdaptive ==> connections < usize::MAX,
            schedule_mode == ScheduleMode::FibAdaptive ==> phi_block_counts@.len() + 1 == max_int(
                connections as int,
                1,
            ),
        ensures
            r is Ok <==> fits_range_table(total_size as int),
            r matches Ok(c) ==> {
                &&& exists|seeds: Seq<RangeSpec>|
                    {
                        &&& #[trigger] is_seed_plan(
                            schedule_mode,
                            total_size as int,
                            connections as int,
                            dry_run,
                            phi_block_counts@,
                            seeds,
                        )
                        &&& c@.ranges == seeds.map_values(|spec: RangeSpec| fresh_range(spec))
                        &&& c@.next_range_id == seeds.len() + 1
                    }
                &&& c@.next_unassigned == 0
                &&& c@.borrow_limit == max_int(borrow_limit_mb as int, 1) * MB
                &&& c@.steal_floor == adaptive_minimum_steal_bytes
                &&& c@.borrow_cursor == 0
                &&& c@.total == total_size
                &&& c.wf()
                &&& c.index_state.wf()
                &&& forall|i: int| 0 <= i < c@.marks.len() ==> #[trigger] c@.marks[i] == 0
                &&& c@.metrics == metrics
            },
    {
        let fib_mb: Vec<u64> = build_fib_mb();
        let ceil_mb: u64 = div_ceil_u64(total_size, MB);
        let needed: u64 = max_u64(ceil_mb, 1);
        let support_idx: usize = match first_reaching(fib_mb.as_slice(), needed) {
            Some(i) => {
                assert(fib_mb@[i as int] == fib_value(i as nat));
                proof {
                    if i + 1 < fib_mb@.len() {
                        lemma_fib_increasing(i as nat, (fib_mb@.len() - 1) as nat);
                    }
                }
                i
            },
            None => {
                proof {
                    assert forall|i: nat|
                        #![trigger fib_value(i)]
                        fib_value(i) <= max_table_mb() implies fib_value(i) < needed by {
                        if i >= fib_mb@.len() {
                            if i > fib_mb@.len() {
                                lemma_fib_increasing(fib_mb@.len(), i);
                            }
                        } else {
                            assert(fib_mb@[i as int] == fib_value(i));
                        }
                    }
                }
                return Err(CoordinatorError::ExceedsRangeTable);
            },
        };
        let lanes: usize = max_usize(connections, 1);
        let seeds: Vec<RangeSpec> = match schedule_mode {
            ScheduleMode::FibAdaptive => build_phi_geometric_ranges(
                total_size,
                phi_block_counts,
                STORAGE_BLOCK_SIZE,
            ),
            ScheduleMode::Fib => {
                let start: usize = choose_seed_start_idx(fib_mb.as_slice(), support_idx, lanes, dry_run);
                proof {
                    lemma_table_reaches_floor(fib_mb@);
                    lemma_table_grows(fib_mb@, start as int, support_idx as int);
                }
                let cut: Vec<RangeSpec> = build_seed_ranges(fib_mb.as_slice(), start, support_idx, total_size);
                assert(is_seed_count(
                    fib_mb@,
                    start as int,
                    support_idx as int,
                    total_size as int,
                    cut@.len() as int,
                ));
                assert(is_table_plan(total_size as int, lanes as int, dry_run, cut@));
                cut
            },
            ScheduleMode::Equal => build_equal_ranges(total_size, lanes),
        };
        proof {
            assert(is_seed_plan(
                schedule_mode,
                total_size as int,
                connections as int,
                dry_run,
                phi_block_counts@,
                seeds@,
            ));
            lemma_plan_ids(schedule_mode, total_size as int, connections as int, dry_run, phi_block_counts@, seeds@);
        }
        let dl_ranges: Vec<ActiveRange> = start_ranges(&seeds);
        Ok(
            Coordinator {
                dl_ranges,
                next_unassigned_idx: 0,
                borrow_limit_bytes: max_u64(borrow_limit_mb, 1) * MB,
                adaptive_minimum_steal_bytes,
                borrow_cursor: 0,
                next_range_id: seeds.len() as u64 + 1,
                total_size,
                index_state: IndexStateMap::new(total_size),
                metrics,
            },
        )
    }

    /// The coordinator that continues from `snapshot`.
    pub fn from_snapshot(
        snapshot: CoordinatorSnapshot,
        total_size: u64,
        metrics: SchedulerMetrics,
        adaptive_minimum_steal_bytes: u64,
    ) -> (r: Coordinator)
        requires
            bucket_total(total_size as int) <= usize::MAX,
        ensures
            r@ == resumed_state(snapshot@, total_size as int, adaptive_minimum_steal_bytes as int, metrics),
            r.wf(),
            r.index_state.wf(),
    {
        let mut dl_ranges: Vec<ActiveRange> = Vec::new();
        let mut i: usize = 0;
        while i < snapshot.dl_ranges.len()
            invariant
                i <= snapshot.dl_ranges@.len(),
                dl_ranges@.len() == i,
                forall|k: int| 0 <= k < i ==> #[trigger] dl_ranges@[k] == resumed_range(snapshot.dl_ranges@[k]),
            decreases snapshot.dl_ranges@.len() - i,
        {
            let range: DlRangeSnapshot = snapshot.dl_ranges[i];
            let finished: bool = range.status == RANGE_STATUS_FINISHED;
            dl_ranges.push(
                ActiveRange {
                    id: range.id,
                    label_start_mb: range.label_start_mb,
                    label_end_mb: range.label_end_mb,
                    byte_start: range.byte_start,
                    assigned_to: if finished {
                        range.assigned_to
                    } else {
                        UNASSIGNED_CONNECTION
                    },
                    cursor: range.cursor,
                    end: range.end,
                    parent_range_id: range.parent_range_id,
                    status: if finished {
                        range.status
                    } else {
                        RANGE_STATUS_PENDING
                    },
                    last_sample_cursor: range.cursor,
                    last_sample_at_ms: 0,
                    recent_speed_bps: 0,
                },
            );
            i = i + 1;
        }
        let ghost kept = snapshot@;
        let r = Coordinator {
            dl_ranges,
            next_unassigned_idx: snapshot.next_unassigned_idx,
            borrow_limit_bytes: snapshot.borrow_limit_bytes,
            adaptive_minimum_steal_bytes,
            borrow_cursor: snapshot.borrow_cursor,
            next_range_id: snapshot.next_range_id,
            total_size,
            index_state: IndexStateMap::from_snapshot(total_size, snapshot.index_state_bits),
            metrics,
        };
        assert(r@.ranges =~= kept.ranges.map_values(|x: DlRangeSnapshot| resumed_range(x)));
        assert(r@.marks =~= resumed_state(
            kept,
            total_size as int,
            adaptive_minimum_steal_bytes as int,
            metrics,
        ).marks);
        r
    }

    /// What is kept for a later run.
    pub fn snapshot(&self) -> (r: CoordinatorSnapshot)
        ensures
            r@ == kept_state(self@),
    {
        let mut dl_ranges: Vec<DlRangeSnapshot> = Vec::new();
        let mut i: usize = 0;
        while i < self.dl_ranges.len()
            invariant
                i <= self.dl_ranges@.len(),
                dl_ranges@.len() == i,
                forall|k: int| 0 <= k < i ==> #[trigger] dl_ranges@[k] == kept_range(self.dl_ranges@[k]),
            decreases self.dl_ranges@.len() - i,
        {
            let range: ActiveRange = self.dl_ranges[i];
            dl_ranges.push(
                DlRangeSnapshot {
                    id: range.id,
                    label_start_mb: range.label_start_mb,
                    label_end_mb: range.label_end_mb,
                    byte_start: range.byte_start,
                    assigned_to: range.assigned_to,
                    cursor: range.cursor,
                    end: range.end,
                    parent_range_id: range.parent_range_id,
                    status: range.status,
                },
            );
            i = i + 1;
        }
        let r = CoordinatorSnapshot {
            dl_ranges,
            next_unassigned_idx: self.next_unassigned_idx,
            borrow_limit_bytes: self.borrow_limit_bytes,
            borrow_cursor: self.borrow_cursor,
            next_range_id: self.next_range_id,
            index_state_bits: self.index_state.snapshot_bits(),
        };
        assert(r@.ranges =~= kept_state(self@).ranges);
        r
    }

    /// Hands range `idx` to `connection_id`.
    fn hand_out(&mut self, idx: usize, connection_id: u32)
        requires
            idx < old(self).dl_ranges@.len(),
        ensures
            final(self)@ == old(self)@.handed_out(idx as int, connection_id, old(self)@.next_unassigned),
    {
        let mut range: ActiveRange = self.dl_ranges[idx];
        range.assign(connection_id);
        self.dl_ranges.set(idx, range);
        SchedulerMetrics::add(&mut self.metrics.direct_assignments, 1);
    }

    /// Whether the numbers that scheduling computes with stay within their
    /// types; a saved state could have any.
    pub fn is_schedulable(&self) -> (r: bool)
        ensures
            r == self@.schedulable(),
    {
        adds_up(&self.dl_ranges) && self.next_range_id < u64::MAX && self.borrow_cursor.checked_add(
            self.dl_ranges.len(),
        ).is_some()
    }

    /// Answers a request for work: a download that halts has none.
    pub fn work_for(&mut self, connection_id: u32, halted: bool) -> (work: Option<usize>)
        requires
            old(self)@.schedulable(),
        ensures
            if halted {
                work is None && final(self)@ == old(self)@
            } else {
                old(self)@.work_outcome(connection_id, final(self)@, work)
            },
    {
        if halted {
            None
        } else {
            self.get_work(connection_id)
        }
    }

    /// Finds work for `connection_id`; the result is the range's position.
    pub fn get_work(&mut self, connection_id: u32) -> (work: Option<usize>)
        requires
            old(self)@.schedulable(),
        ensures
            old(self)@.work_outcome(connection_id, final(self)@, work),
    {
        let ghost s = self@;
        while self.next_unassigned_idx < self.dl_ranges.len()
            invariant
                s.schedulable(),
                s.next_unassigned <= self@.next_unassigned,
                self@.next_unassigned <= s.ranges.len() || self@.next_unassigned == s.next_unassigned,
                self@ == (CoordState { next_unassigned: self@.next_unassigned, ..s }),
                s == old(self)@,
                forall|k: int| s.next_unassigned <= k < self@.next_unassigned ==> !waiting()(#[trigger] s.ranges[k]),
            decreases self.dl_ranges@.len() - self.next_unassigned_idx,
        {
            let idx: usize = self.next_unassigned_idx;
            self.next_unassigned_idx = idx + 1;
            if self.dl_ranges[idx].assigned_to == UNASSIGNED_CONNECTION {
                self.hand_out(idx, connection_id);
                proof {
                    assert(is_first(s.ranges, s.next_unassigned, waiting(), idx as int));
                    assert forall|i: int| #[trigger]
                        is_first(s.ranges, s.next_unassigned, waiting(), i) implies i == idx by {
                        assert(waiting()(s.ranges[i]));
                        assert(waiting()(s.ranges[idx as int]));
                    }
                    assert(!none_from(s.ranges, s.next_unassigned, waiting())) by {
                        assert(waiting()(s.ranges[idx as int]));
                    }
                }
                return Some(idx);
            }
        }
        let ghost passed = max_int(s.next_unassigned, s.ranges.len() as int);
        assert(self@.next_unassigned == passed);
        proof {
            assert(none_from(s.ranges, s.next_unassigned, waiting()));
            assert forall|i: int| !#[trigger] is_first(s.ranges, s.next_unassigned, waiting(), i) by {}
        }
        let mut idx: usize = 0;
        while idx < self.dl_ranges.len()
            invariant
                s.schedulable(),
                s == old(self)@,
                idx <= self.dl_ranges@.len(),
                passed == max_int(s.next_unassigned, s.ranges.len() as int),
                self@ == (CoordState { next_unassigned: passed, ..s }),
                none_from(s.ranges, s.next_unassigned, waiting()),
                forall|i: int| !#[trigger] is_first(s.ranges, s.next_unassigned, waiting(), i),
                forall|k: int| 0 <= k < idx ==> !resumable()(#[trigger] s.ranges[k]),
            decreases self.dl_ranges@.len() - idx,
        {
            let range: ActiveRange = self.dl_ranges[idx];
            if range.assigned_to == UNASSIGNED_CONNECTION && range.status == RANGE_STATUS_PENDING && range.cursor
                < range.end {
                self.hand_out(idx, connection_id);
                proof {
                    assert(is_first(s.ranges, 0, resumable(), idx as int));
                    assert forall|i: int| #[trigger] is_first(s.ranges, 0, resumable(), i) implies i == idx by {
                        assert(resumable()(s.ranges[i]));
                        assert(resumable()(s.ranges[idx as int]));
                    }
                    assert(!none_from(s.ranges, 0, resumable())) by {
                        assert(resumable()(s.ranges[idx as int]));
                    }
                }
                return Some(idx);
            }
            idx = idx + 1;
        }
        proof {
            assert(none_from(s.ranges, 0, resumable()));
            assert forall|i: int| !#[trigger] is_first(s.ranges, 0, resumable(), i) by {}
        }
        self.borrow_work(connection_id)
    }
}

/// The support table goes past the seed floor.
proof fn lemma_table_reaches_floor(table: Seq<u64>)
    requires
        is_fib_table(table),
    ensures
        exists|d: int| is_first_reaching(table, LIVE_SEED_FLOOR_MB as int, d),
{
    assert(fib_value(4) == 8 && fib_value(5) == 13 && fib_value(6) == 21) by {
        reveal_with_fuel(fib_value, 8);
    }
    assert(fib_value(0) == 1 && fib_value(1) == 2 && fib_value(2) == 3 && fib_value(3) == 5) by {
        reveal_with_fuel(fib_value, 8);
    }
    if table.len() <= 5 {
        if table.len() < 5 {
            lemma_fib_increasing(table.len(), 5);
        }
        assert(false);
    }
    assert(table[5] == fib_value(5));
    assert(table[4] == fib_value(4));
    assert(table[3] == fib_value(3));
    assert(table[2] == fib_value(2));
    assert(table[1] == fib_value(1));
    assert(table[0] == fib_value(0));
    assert forall|k: int| 0 <= k < 5 implies #[trigger] table[k] < LIVE_SEED_FLOOR_MB by {
        assert(k == 0 || k == 1 || k == 2 || k == 3 || k == 4);
    }
    assert(is_first_reaching(table, LIVE_SEED_FLOOR_MB as int, 5));
}

/// The first ranges are numbered within the number of lanes.
proof fn lemma_plan_ids(
    mode: ScheduleMode,
    total: int,
    connections: int,
    dry_run: bool,
    block_counts: Seq<u64>,
    seeds: Seq<RangeSpec>,
)
    requires
        is_seed_plan(mode, total, connections, dry_run, block_counts, seeds),
        0 <= total <= u64::MAX,
        0 <= connections <= usize::MAX,
        mode == ScheduleMode::FibAdaptive ==> connections < usize::MAX,
        mode == ScheduleMode::FibAdaptive ==> block_counts.len() + 1 == max_int(connections, 1),
    ensures
        seeds.len() < u64::MAX,
        forall|k: int| 0 <= k < seeds.len() ==> (#[trigger] seeds[k]).id < u64::MAX,
{
    let lanes = max_int(connections, 1);
    match mode {
        ScheduleMode::Fib => {
            let (table, start, support) = choose|table: Seq<u64>, start: int, support: int|
                {
                    &&& is_fib_table(table)
                    &&& is_first_reaching(table, max_int(ceil_div(total, MB as int), 1), support)
                    &&& seed_start(table, support, lanes, dry_run, start)
                    &&& #[trigger] is_seed_count(table, start, support, total, seeds.len() as int)
                    &&& forall|k: int| 0 <= k < seeds.len() ==> is_seed_range(
                        table,
                        start,
                        total,
                        seeds.len() as int,
                        k,
                        #[trigger] seeds[k],
                    )
                };
            lemma_fib_step((table.len() - 1) as nat);
            assert(table[table.len() - 1] == fib_value((table.len() - 1) as nat));
        },
        ScheduleMode::FibAdaptive => {
            if total > 0 {
                lemma_geometric_ids(total, block_counts, STORAGE_BLOCK_SIZE as int, lanes);
                assert(ceil_div(total, MB as int) <= total);
            }
        },
        ScheduleMode::Equal => {
            assert(total > 0 ==> ceil_div(total, MB as int) < u64::MAX);
        },
    }
}

proof fn lemma_best_unique(s: Seq<ActiveRange>, cursor: int, p: spec_fn(ActiveRange) -> bool, a: int, b: int)
    requires
        is_best(s, cursor, p, a),
        is_best(s, cursor, p, b),
    ensures
        a == b,
{
    let n = s.len() as int;
    assert(p(s[around(cursor, a, n)]));
    assert(p(s[around(cursor, b, n)]));
}

/// At most one range is selected, for one reason.
proof fn lemma_selection_unique(s: CoordState, connection_id: u32, idx: int, kind: BorrowKind)
    requires
        s.selects(connection_id, idx, kind),
    ensures
        !s.selects_none(connection_id),
        forall|i: int, k: BorrowKind| #[trigger] s.selects(connection_id, i, k) ==> i == idx && k == kind,
{
    let m = median(speed_samples(s.ranges, connection_id, s.limit()));
    let lag = lagging(connection_id, s.limit(), m);
    let div = divisible(connection_id, s.limit());
    let n = s.ranges.len() as int;
    assert forall|i: int, k: BorrowKind| #[trigger] s.selects(connection_id, i, k) implies i == idx && k == kind by {
        if exists|o: int| #[trigger] is_best(s.ranges, s.borrow_cursor, lag, o) {
            let a = choose|o: int| #[trigger] is_best(s.ranges, s.borrow_cursor, lag, o);
            assert(lag(s.ranges[around(s.borrow_cursor, a, n)]));
            assert forall|o: int| #[trigger] is_best(s.ranges, s.borrow_cursor, lag, o) implies o == a by {
                lemma_best_unique(s.ranges, s.borrow_cursor, lag, o, a);
            }
        } else {
            let a = choose|o: int| #[trigger] is_best(s.ranges, s.borrow_cursor, div, o);
            assert forall|o: int| #[trigger] is_best(s.ranges, s.borrow_cursor, div, o) implies o == a by {
                lemma_best_unique(s.ranges, s.borrow_cursor, div, o, a);
            }
        }
    }
    if s.selects_none(connection_id) {
        if kind == BorrowKind::Straggler {
            let a = choose|o: int| #[trigger] is_best(s.ranges, s.borrow_cursor, lag, o);
            assert(lag(s.ranges[around(s.borrow_cursor, a, n)]));
        } else {
            let a = choose|o: int| #[trigger] is_best(s.ranges, s.borrow_cursor, div, o);
            assert(div(s.ranges[around(s.borrow_cursor, a, n)]));
        }
    }
}

proof fn lemma_none_selected(s: CoordState, connection_id: u32)
    requires
        s.selects_none(connection_id),
    ensures
        forall|i: int, k: BorrowKind| !#[trigger] s.selects(connection_id, i, k),
{
    assert forall|i: int, k: BorrowKind| !#[trigger] s.selects(connection_id, i, k) by {
        if s.selects(connection_id, i, k) {
            lemma_selection_unique(s, connection_id, i, k);
        }
    }
}

} // verus!
