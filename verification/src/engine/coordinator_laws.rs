//! What holds of a coordinator whatever is asked of it: the ranges cover the
//! file, no byte is in two of them, and no progress is lost.

use vstd::prelude::*;
use crate::engine::builders::{
    is_fib_table, is_first_reaching, is_seed_count, is_seed_range, lemma_equal_ranges_tile,
    lemma_geometric_ranges_tile, lemma_seed_ranges_tile, tiles, RangeSpec,
};
use crate::engine::coordinator::{
    around, fresh_range, is_first, is_seed_plan, kept_state, none_from, resumable, resumed_state, seed_start, waiting,
    BorrowKind, CoordState, DlRangeSnapshot, SnapshotView,
};
use crate::engine::metrics::SchedulerMetrics;
use crate::engine::ranges::{
    lemma_done_within_span, lemma_sums_push, lemma_sums_update, total_done, total_span, ActiveRange,
    RANGE_STATUS_ACTIVE, RANGE_STATUS_FINISHED, RANGE_STATUS_PENDING, UNASSIGNED_CONNECTION,
};
use crate::engine::types::ScheduleMode;
use crate::units::{ceil_div, max_int, MB};

verus! {

/// Every byte of a file of `total` bytes is in some range.
pub open spec fn covers(ranges: Seq<ActiveRange>, total: int) -> bool {
    forall|b: int| 0 <= b < total ==> #[trigger] covered(ranges, b)
}

pub open spec fn covered(ranges: Seq<ActiveRange>, b: int) -> bool {
    exists|i: int| 0 <= i < ranges.len() && (#[trigger] ranges[i]).holds(b)
}

/// No byte is in two ranges.
pub open spec fn apart(ranges: Seq<ActiveRange>) -> bool {
    forall|i: int, j: int|
        0 <= i < j < ranges.len() ==> (#[trigger] ranges[i]).end <= (#[trigger] ranges[j]).byte_start || ranges[j].end
            <= ranges[i].byte_start
}

/// The ranges divide the file: they are in order and within it, they cover
/// it, they are apart, and together they are as long as it.
pub open spec fn divides(ranges: Seq<ActiveRange>, total: int) -> bool {
    &&& forall|i: int| 0 <= i < ranges.len() ==> (#[trigger] ranges[i]).in_order(total)
    &&& covers(ranges, total)
    &&& apart(ranges)
    &&& total_span(ranges) == total
}

/// The numbers of the ranges are distinct, and none is due to be given again.
pub open spec fn numbered(s: CoordState) -> bool {
    &&& forall|i: int| 0 <= i < s.ranges.len() ==> (#[trigger] s.ranges[i]).id < s.next_range_id
    &&& forall|i: int, j: int|
        0 <= i < j < s.ranges.len() ==> (#[trigger] s.ranges[i]).id != (#[trigger] s.ranges[j]).id
}

proof fn lemma_tiles_cover(seeds: Seq<RangeSpec>, total: int, b: int, n: int)
    requires
        tiles(seeds, total),
        0 <= n <= seeds.len(),
        0 <= b < if n == 0 { 0 } else { seeds[n - 1].byte_end as int },
    ensures
        exists|i: int| 0 <= i < n && (#[trigger] seeds[i]).byte_start <= b < seeds[i].byte_end,
    decreases n,
{
    if b < seeds[n - 1].byte_start {
        lemma_tiles_cover(seeds, total, b, n - 1);
        let i = choose|i: int| 0 <= i < n - 1 && (#[trigger] seeds[i]).byte_start <= b < seeds[i].byte_end;
        assert(seeds[i].byte_start <= b < seeds[i].byte_end);
    } else {
        assert(seeds[n - 1].byte_start <= b < seeds[n - 1].byte_end);
    }
}

proof fn lemma_tiles_ordered(seeds: Seq<RangeSpec>, total: int, i: int, j: int)
    requires
        tiles(seeds, total),
        0 <= i < j < seeds.len(),
    ensures
        seeds[i].byte_end <= seeds[j].byte_start,
    decreases j - i,
{
    if i + 1 < j {
        lemma_tiles_ordered(seeds, total, i, j - 1);
        assert(seeds[j - 1].byte_start < seeds[j - 1].byte_end);
    }
}

proof fn lemma_tiles_span(seeds: Seq<RangeSpec>, total: int, n: int)
    requires
        tiles(seeds, total),
        0 <= n <= seeds.len(),
    ensures
        total_span(seeds.map_values(|r: RangeSpec| fresh_range(r)).take(n)) == if n == 0 {
            0
        } else {
            seeds[n - 1].byte_end as int
        },
    decreases n,
{
    let all = seeds.map_values(|r: RangeSpec| fresh_range(r));
    if n > 0 {
        lemma_tiles_span(seeds, total, n - 1);
        assert(all.take(n).drop_last() =~= all.take(n - 1));
        assert(all.take(n).last() == fresh_range(seeds[n - 1]));
        if n > 1 {
            assert(seeds[n - 1].byte_start == seeds[n - 2].byte_end);
        }
    }
}

/// Ranges that start from a tiling divide the file.
pub proof fn law_tiles_divide(seeds: Seq<RangeSpec>, total: int)
    requires
        tiles(seeds, total),
        total >= 0,
    ensures
        divides(seeds.map_values(|r: RangeSpec| fresh_range(r)), total),
        total_done(seeds.map_values(|r: RangeSpec| fresh_range(r))) == 0,
{
    let all = seeds.map_values(|r: RangeSpec| fresh_range(r));
    let n = seeds.len() as int;
    assert(all.take(n) =~= all);
    lemma_tiles_span(seeds, total, n);
    assert forall|i: int| 0 <= i < n implies (#[trigger] all[i]).in_order(total) by {
        assert(seeds[i].byte_start < seeds[i].byte_end);
        if i < n - 1 {
            lemma_tiles_ordered(seeds, total, i, n - 1);
            assert(seeds[n - 1].byte_start < seeds[n - 1].byte_end);
        }
    }
    assert forall|b: int| 0 <= b < total implies #[trigger] covered(all, b) by {
        lemma_tiles_cover(seeds, total, b, n);
        let i = choose|i: int| 0 <= i < n && (#[trigger] seeds[i]).byte_start <= b < seeds[i].byte_end;
        assert(all[i].holds(b));
    }
    assert forall|i: int, j: int| 0 <= i < j < n implies (#[trigger] all[i]).end <= (#[trigger] all[j]).byte_start
        || all[j].end <= all[i].byte_start by {
        lemma_tiles_ordered(seeds, total, i, j);
    }
    lemma_nothing_done(all);
}

proof fn lemma_nothing_done(ranges: Seq<ActiveRange>)
    requires
        forall|i: int| 0 <= i < ranges.len() ==> (#[trigger] ranges[i]).cursor == ranges[i].byte_start,
    ensures
        total_done(ranges) == 0,
    decreases ranges.len(),
{
    if ranges.len() > 0 {
        assert forall|i: int| 0 <= i < ranges.drop_last().len() implies (#[trigger] ranges.drop_last()[i]).cursor
            == ranges.drop_last()[i].byte_start by {
            assert(ranges.drop_last()[i] == ranges[i]);
        }
        lemma_nothing_done(ranges.drop_last());
    }
}

/// A new coordinator's ranges divide the file, in every mode; a file of one
/// megabyte or less has no range that is cut at the support table.
pub proof fn law_plan_divides(
    mode: ScheduleMode,
    total: int,
    connections: int,
    dry_run: bool,
    block_counts: Seq<u64>,
    seeds: Seq<RangeSpec>,
)
    requires
        is_seed_plan(mode, total, connections, dry_run, block_counts, seeds),
        total >= 0,
        mode == ScheduleMode::FibAdaptive ==> block_counts.len() + 1 == max_int(connections, 1),
    ensures
        if mode == ScheduleMode::Fib && 0 < total <= MB {
            seeds.len() == 0
        } else {
            divides(seeds.map_values(|r: RangeSpec| fresh_range(r)), total)
        },
{
    let lanes = max_int(connections, 1);
    match mode {
        ScheduleMode::Fib => {
            let (table, start, support) = choose|table: Seq<u64>, start: int, support: int|
                {
                    &&& is_fib_table(table)
                    &&& is_first_reaching(table, max_int(ceil_div(total, MB as int), 1), support)
                    &&& seed_start(table, support, lanes, dry_run, start)
                    &&& #[trigger] is_seed_count(table, start, support, total, seeds.len() as int)
                    &&& forall|k: int| 0 <= k < seeds.len() ==> is_seed_range(
                        table,
                        start,
                        total,
                        seeds.len() as int,
                        k,
                        #[trigger] seeds[k],
                    )
                };
            if total > 0 {
                assert(table[0] == crate::engine::builders::fib_value(0));
                if total <= MB {
                    assert(ceil_div(total, MB as int) == 1);
                    assert(support == 0);
                } else {
                    assert(support > 0);
                    lemma_seed_ranges_tile(table, start, support, total, seeds);
                }
            }
        },
        ScheduleMode::FibAdaptive => {
            if total > 0 {
                if lanes > 1 && crate::engine::builders::geometric_cut(
                    total,
                    block_counts,
                    crate::engine::coordinator::STORAGE_BLOCK_SIZE as int,
                    1,
                ) < crate::engine::coordinator::STORAGE_BLOCK_SIZE {
                    lemma_equal_ranges_tile(total, lanes, seeds);
                } else {
                    lemma_geometric_ranges_tile(
                        total,
                        block_counts,
                        crate::engine::coordinator::STORAGE_BLOCK_SIZE as int,
                        seeds,
                    );
                }
            }
        },
        ScheduleMode::Equal => {
            lemma_equal_ranges_tile(total, lanes, seeds);
        },
    }
    if mode != ScheduleMode::Fib || total == 0 || total > MB {
        assert(tiles(seeds, total));
        law_tiles_divide(seeds, total);
    }
}

/// In the equal and the seeded mode the first ranges have distinct numbers.
pub proof fn law_plan_numbers(
    mode: ScheduleMode,
    total: int,
    connections: int,
    dry_run: bool,
    block_counts: Seq<u64>,
    seeds: Seq<RangeSpec>,
    s: CoordState,
)
    requires
        is_seed_plan(mode, total, connections, dry_run, block_counts, seeds),
        mode != ScheduleMode::FibAdaptive,
        seeds.len() < u64::MAX,
        s.ranges == seeds.map_values(|r: RangeSpec| fresh_range(r)),
        s.next_range_id == seeds.len() + 1,
    ensures
        numbered(s),
{
    assert forall|i: int| 0 <= i < seeds.len() implies (#[trigger] seeds[i]).id == i by {
        match mode {
            ScheduleMode::Fib => {
                let (table, start, support) = choose|table: Seq<u64>, start: int, support: int|
                    {
                        &&& is_fib_table(table)
                        &&& is_first_reaching(table, max_int(ceil_div(total, MB as int), 1), support)
                        &&& seed_start(table, support, max_int(connections, 1), dry_run, start)
                        &&& #[trigger] is_seed_count(table, start, support, total, seeds.len() as int)
                        &&& forall|k: int| 0 <= k < seeds.len() ==> is_seed_range(
                            table,
                            start,
                            total,
                            seeds.len() as int,
                            k,
                            #[trigger] seeds[k],
                        )
                    };
            },
            _ => {},
        }
    }
    assert forall|i: int| 0 <= i < s.ranges.len() implies (#[trigger] s.ranges[i]).id == i + 1 by {
        assert(seeds[i].id == i);
    }
}

pub(crate) proof fn lemma_reassigned_divides(ranges: Seq<ActiveRange>, total: int, i: int, r: ActiveRange)
    requires
        divides(ranges, total),
        0 <= i < ranges.len(),
        r.byte_start == ranges[i].byte_start,
        r.end == ranges[i].end,
        r.byte_start <= r.cursor <= r.end,
    ensures
        divides(ranges.update(i, r), total),
        total_done(ranges.update(i, r)) == total_done(ranges) - ranges[i].done() + r.done(),
{
    lemma_sums_update(ranges, i, r);
    let after = ranges.update(i, r);
    assert forall|b: int| 0 <= b < total implies #[trigger] covered(after, b) by {
        assert(covered(ranges, b));
        let k = choose|k: int| 0 <= k < ranges.len() && (#[trigger] ranges[k]).holds(b);
        assert(after[k].holds(b));
    }
}

proof fn lemma_split_divides(s: CoordState, idx: int, connection_id: u32, kind: BorrowKind)
    requires
        divides(s.ranges, s.total),
        s.total <= u64::MAX,
        s.schedulable(),
        s.limit() >= 0,
        0 <= idx < s.ranges.len(),
        s.splits(idx, kind),
    ensures
        divides(s.split(idx, connection_id, kind).ranges, s.total),
        total_done(s.split(idx, connection_id, kind).ranges) == total_done(s.ranges),
{
    let r = s.ranges[idx];
    let at = s.cut(idx, kind);
    assert(r.in_order(s.total));
    assert(r.cursor < at <= r.end);
    let donor = ActiveRange { end: at as u64, ..r };
    let mid = s.ranges.update(idx, donor);
    let after = s.split(idx, connection_id, kind).ranges;
    let taken = after.last();
    assert(after =~= mid.push(taken));
    lemma_sums_update(s.ranges, idx, donor);
    lemma_sums_push(mid, taken);
    assert forall|i: int| 0 <= i < after.len() implies (#[trigger] after[i]).in_order(s.total) by {
        if i < s.ranges.len() && i != idx {
            assert(after[i] == s.ranges[i]);
        }
    }
    assert forall|b: int| 0 <= b < s.total implies #[trigger] covered(after, b) by {
        assert(covered(s.ranges, b));
        let k = choose|k: int| 0 <= k < s.ranges.len() && (#[trigger] s.ranges[k]).holds(b);
        if k != idx {
            assert(after[k].holds(b));
        } else if b < at {
            assert(after[idx].holds(b));
        } else {
            assert(after[after.len() - 1].holds(b));
        }
    }
    assert forall|i: int, j: int| 0 <= i < j < after.len() implies (#[trigger] after[i]).end <= (
    #[trigger] after[j]).byte_start || after[j].end <= after[i].byte_start by {
        let a = s.ranges[i];
        if j < s.ranges.len() {
            let b = s.ranges[j];
            assert(a.end <= b.byte_start || b.end <= a.byte_start);
        } else if i != idx {
            if i < idx {
                assert(a.end <= r.byte_start || r.end <= a.byte_start);
            } else {
                assert(s.ranges[idx].end <= s.ranges[i].byte_start || s.ranges[i].end <= s.ranges[idx].byte_start);
            }
        }
    }
}

proof fn lemma_limit_nonnegative(s: CoordState)
    requires
        s.borrow_limit >= 0,
    ensures
        s.limit() >= 0,
{
}

/// What is selected is a range.
proof fn lemma_selected_in_range(s: CoordState, connection_id: u32, idx: int, kind: BorrowKind)
    requires
        s.selects(connection_id, idx, kind),
        s.borrow_cursor >= 0,
    ensures
        0 <= idx < s.ranges.len(),
{
    let n = s.ranges.len() as int;
    assert forall|o: int| 0 <= o < n implies 0 <= #[trigger] around(s.borrow_cursor, o, n) < n by {}
}

/// A state that a coordinator can be in.
pub open spec fn is_state(s: CoordState) -> bool {
    &&& s.ranges.len() <= usize::MAX
    &&& 0 <= s.next_unassigned <= usize::MAX
    &&& 0 <= s.borrow_cursor
    &&& 0 <= s.borrow_limit
    &&& 0 <= s.total <= u64::MAX
}

/// A request for work leaves the file divided and loses no progress. The work
/// that is given belongs to the connection that asked.
pub proof fn law_work_keeps_division(s: CoordState, connection_id: u32, after: CoordState, work: Option<usize>)
    requires
        is_state(s),
        s.schedulable(),
        divides(s.ranges, s.total),
        s.work_outcome(connection_id, after, work),
    ensures
        divides(after.ranges, s.total),
        after.total == s.total,
        total_done(after.ranges) == total_done(s.ranges),
        work matches Some(i) ==> {
            &&& 0 <= i < after.ranges.len()
            &&& after.ranges[i as int].assigned_to == connection_id
            &&& after.ranges[i as int].status == RANGE_STATUS_ACTIVE
        },
        numbered(s) ==> numbered(after),
        s.map_fits() ==> after.map_fits(),
{
    let passed = max_int(s.next_unassigned, s.ranges.len() as int);
    if exists|i: int| is_first(s.ranges, s.next_unassigned, waiting(), i) {
        let i = choose|i: int| is_first(s.ranges, s.next_unassigned, waiting(), i);
        assert(s.ranges[i].in_order(s.total));
        lemma_reassigned_divides(s.ranges, s.total, i, s.ranges[i].taken_by(connection_id));
    } else if exists|i: int| is_first(s.ranges, 0, resumable(), i) {
        let i = choose|i: int| is_first(s.ranges, 0, resumable(), i);
        assert(s.ranges[i].in_order(s.total));
        lemma_reassigned_divides(s.ranges, s.total, i, s.ranges[i].taken_by(connection_id));
    } else {
        let t = CoordState { next_unassigned: passed, ..s };
        assert(t.borrow_outcome(connection_id, after, work));
        if !t.selects_none(connection_id) {
            let (idx, kind) = choose|idx: int, kind: BorrowKind| #[trigger] t.selects(connection_id, idx, kind);
            lemma_selected_in_range(t, connection_id, idx, kind);
            lemma_limit_nonnegative(t);
            if t.splits(idx, kind) {
                lemma_split_divides(t, idx, connection_id, kind);
                if numbered(s) {
                    let r = t.split(idx, connection_id, kind);
                    assert forall|i: int| 0 <= i < r.ranges.len() implies (#[trigger] r.ranges[i]).id
                        < r.next_range_id by {
                        if i < s.ranges.len() {
                            assert(r.ranges[i].id == s.ranges[i].id);
                        }
                    }
                    assert forall|i: int, j: int| 0 <= i < j < r.ranges.len() implies (#[trigger] r.ranges[i]).id != (
                    #[trigger] r.ranges[j]).id by {
                        assert(r.ranges[i].id == s.ranges[i].id);
                        if j < s.ranges.len() {
                            assert(r.ranges[j].id == s.ranges[j].id);
                        }
                    }
                }
            }
        }
    }
}

/// What is received never exceeds the file while the file is divided.
pub proof fn law_progress_within_file(s: CoordState)
    requires
        is_state(s),
        divides(s.ranges, s.total),
    ensures
        0 <= total_done(s.ranges) <= s.total,
        s.downloaded() == total_done(s.ranges),
{
    assert forall|i: int| 0 <= i < s.ranges.len() implies (#[trigger] s.ranges[i]).byte_start <= s.ranges[i].end by {
        assert(s.ranges[i].in_order(s.total));
    }
    lemma_done_within_span(s.ranges);
}

proof fn lemma_done_is_span(ranges: Seq<ActiveRange>)
    requires
        forall|i: int|
            0 <= i < ranges.len() ==> (#[trigger] ranges[i]).byte_start <= ranges[i].end && ranges[i].done()
                <= ranges[i].end - ranges[i].byte_start,
    ensures
        total_done(ranges) <= total_span(ranges),
        total_done(ranges) == total_span(ranges) <==> forall|i: int|
            0 <= i < ranges.len() ==> (#[trigger] ranges[i]).done() == ranges[i].end - ranges[i].byte_start,
    decreases ranges.len(),
{
    if ranges.len() > 0 {
        let front = ranges.drop_last();
        assert forall|i: int| 0 <= i < front.len() implies (#[trigger] front[i]).byte_start <= front[i].end
            && front[i].done() <= front[i].end - front[i].byte_start by {
            assert(front[i] == ranges[i]);
        }
        lemma_done_is_span(front);
        let last = ranges.len() - 1;
        assert(ranges[last] == ranges.last());
        if total_done(ranges) == total_span(ranges) {
            assert forall|i: int| 0 <= i < ranges.len() implies (#[trigger] ranges[i]).done() == ranges[i].end
                - ranges[i].byte_start by {
                if i < last {
                    assert(front[i] == ranges[i]);
                }
            }
        }
        if forall|i: int|
            0 <= i < ranges.len() ==> (#[trigger] ranges[i]).done() == ranges[i].end - ranges[i].byte_start {
            assert forall|i: int| 0 <= i < front.len() implies (#[trigger] front[i]).done() == front[i].end
                - front[i].byte_start by {
                assert(front[i] == ranges[i]);
            }
        }
    }
}

/// The whole file is received exactly when every range is.
pub proof fn law_complete_when_all_ranges_are(s: CoordState)
    requires
        is_state(s),
        divides(s.ranges, s.total),
    ensures
        s.downloaded() == s.total <==> forall|i: int|
            0 <= i < s.ranges.len() ==> (#[trigger] s.ranges[i]).cursor == s.ranges[i].end,
{
    law_progress_within_file(s);
    assert forall|i: int| 0 <= i < s.ranges.len() implies (#[trigger] s.ranges[i]).byte_start <= s.ranges[i].end
        && s.ranges[i].done() == s.ranges[i].cursor - s.ranges[i].byte_start by {
        assert(s.ranges[i].in_order(s.total));
    }
    assert forall|i: int| 0 <= i < s.ranges.len() implies s.ranges[i].done() <= (#[trigger] s.ranges[i]).end
        - s.ranges[i].byte_start by {
        assert(s.ranges[i].in_order(s.total));
    }
    lemma_done_is_span(s.ranges);
    if s.downloaded() == s.total {
        assert forall|i: int| 0 <= i < s.ranges.len() implies (#[trigger] s.ranges[i]).cursor == s.ranges[i].end by {
            assert(s.ranges[i].done() == s.ranges[i].end - s.ranges[i].byte_start);
        }
    }
    if forall|i: int| 0 <= i < s.ranges.len() ==> (#[trigger] s.ranges[i]).cursor == s.ranges[i].end {
        assert forall|i: int| 0 <= i < s.ranges.len() implies (#[trigger] s.ranges[i]).done() == s.ranges[i].end
            - s.ranges[i].byte_start by {
            assert(s.ranges[i].cursor == s.ranges[i].end);
        }
    }
}

/// What is kept of a range once it waits for a connection again, unless it is
/// finished.
pub open spec fn let_go(k: DlRangeSnapshot) -> DlRangeSnapshot {
    if k.status == RANGE_STATUS_FINISHED {
        k
    } else {
        DlRangeSnapshot { assigned_to: UNASSIGNED_CONNECTION, status: RANGE_STATUS_PENDING, ..k }
    }
}

/// A snapshot survives a round trip: what is kept of a coordinator that
/// continues from it is the snapshot itself, but that ranges which were not
/// finished wait for a connection.
pub proof fn law_snapshot_round_trip(s: CoordState, steal_floor: int, metrics: SchedulerMetrics)
    requires
        s.map_fits(),
    ensures
        kept_state(resumed_state(kept_state(s), s.total, steal_floor, metrics)) == (SnapshotView {
            ranges: kept_state(s).ranges.map_values(|k: DlRangeSnapshot| let_go(k)),
            ..kept_state(s)
        }),
        resumed_state(kept_state(s), s.total, steal_floor, metrics).map_fits(),
{
    let again = kept_state(resumed_state(kept_state(s), s.total, steal_floor, metrics));
    assert(again.ranges =~= kept_state(s).ranges.map_values(|k: DlRangeSnapshot| let_go(k)));
    assert(again.marks =~= s.marks);
}

/// Continuing from a snapshot keeps the file divided and loses no progress:
/// every bound, every cursor, every number and every mark stays.
pub proof fn law_resume_keeps_progress(s: CoordState, steal_floor: int, metrics: SchedulerMetrics)
    requires
        s.map_fits(),
        divides(s.ranges, s.total),
    ensures
        ({
            let resumed = resumed_state(kept_state(s), s.total, steal_floor, metrics);
            &&& divides(resumed.ranges, s.total)
            &&& total_done(resumed.ranges) == total_done(s.ranges)
            &&& resumed.downloaded() == s.downloaded()
            &&& resumed.marks == s.marks
            &&& resumed.map_size == s.map_size
            &&& numbered(s) ==> numbered(resumed)
            &&& s.schedulable() ==> resumed.schedulable()
            &&& forall|i: int|
                0 <= i < resumed.ranges.len() ==> {
                    let r = #[trigger] resumed.ranges[i];
                    &&& r.id == s.ranges[i].id
                    &&& r.byte_start == s.ranges[i].byte_start
                    &&& r.cursor == s.ranges[i].cursor
                    &&& r.end == s.ranges[i].end
                    &&& s.ranges[i].status == RANGE_STATUS_FINISHED ==> r.status == RANGE_STATUS_FINISHED
                        && r.assigned_to == s.ranges[i].assigned_to
                    &&& s.ranges[i].status != RANGE_STATUS_FINISHED ==> r.status == RANGE_STATUS_PENDING
                        && r.assigned_to == UNASSIGNED_CONNECTION
                }
        }),
{
    let state = resumed_state(kept_state(s), s.total, steal_floor, metrics);
    let resumed = state.ranges;
    assert(state.marks =~= s.marks);
    lemma_same_bounds_same_sums(s.ranges, resumed);
    assert forall|i: int| 0 <= i < resumed.len() implies (#[trigger] resumed[i]).in_order(s.total) by {
        assert(s.ranges[i].in_order(s.total));
    }
    assert forall|b: int| 0 <= b < s.total implies #[trigger] covered(resumed, b) by {
        assert(covered(s.ranges, b));
        let k = choose|k: int| 0 <= k < s.ranges.len() && (#[trigger] s.ranges[k]).holds(b);
        assert(resumed[k].holds(b));
    }
    assert forall|i: int, j: int| 0 <= i < j < resumed.len() implies (#[trigger] resumed[i]).end <= (
    #[trigger] resumed[j]).byte_start || resumed[j].end <= resumed[i].byte_start by {
        assert(s.ranges[i].end <= s.ranges[j].byte_start || s.ranges[j].end <= s.ranges[i].byte_start);
    }
    if numbered(s) {
        assert forall|i: int| 0 <= i < resumed.len() implies (#[trigger] resumed[i]).id < state.next_range_id by {
            assert(s.ranges[i].id < s.next_range_id);
        }
        assert forall|i: int, j: int| 0 <= i < j < resumed.len() implies (#[trigger] resumed[i]).id != (
        #[trigger] resumed[j]).id by {
            assert(s.ranges[i].id != s.ranges[j].id);
        }
    }
}

proof fn lemma_same_bounds_same_sums(a: Seq<ActiveRange>, b: Seq<ActiveRange>)
    requires
        a.len() == b.len(),
        forall|i: int|
            0 <= i < a.len() ==> (#[trigger] a[i]).byte_start == b[i].byte_start && a[i].cursor == b[i].cursor
                && a[i].end == b[i].end,
    ensures
        total_done(a) == total_done(b),
        total_span(a) == total_span(b),
    decreases a.len(),
{
    if a.len() > 0 {
        lemma_same_bounds_same_sums(a.drop_last(), b.drop_last());
    }
}

/// A connection is sent away only when no range is left that nobody holds and
/// that has bytes missing.
pub proof fn law_no_range_is_passed_over(s: CoordState, connection_id: u32, after: CoordState)
    requires
        s.work_outcome(connection_id, after, None),
    ensures
        forall|i: int|
            0 <= i < s.ranges.len() ==> {
                let r = #[trigger] s.ranges[i];
                !(r.assigned_to == UNASSIGNED_CONNECTION && r.status == RANGE_STATUS_PENDING && r.cursor < r.end)
            },
{
    assert forall|i: int| 0 <= i < s.ranges.len() implies !resumable()(#[trigger] s.ranges[i]) by {
        if none_from(s.ranges, s.next_unassigned, waiting()) {
            if !none_from(s.ranges, 0, resumable()) {
                let j = choose|j: int| #[trigger] is_first(s.ranges, 0, resumable(), j);
                assert(is_first(s.ranges, 0, resumable(), j));
            }
        } else {
            let j = choose|j: int| #[trigger] is_first(s.ranges, s.next_unassigned, waiting(), j);
            assert(is_first(s.ranges, s.next_unassigned, waiting(), j));
        }
    }
}

} // verus!
