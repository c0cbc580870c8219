//! What holds of how a file is cut, kept and counted.

use vstd::prelude::*;
use crate::engine::builders::{
    build_equal_ranges, build_fib_mb, build_phi_geometric_ranges, build_seed_ranges, choose_seed_start_idx,
    first_reaching, lemma_equal_ranges_tile, lemma_geometric_ranges_tile, RangeSpec,
};
use crate::engine::coordinator::{Coordinator, CoordinatorError, CoordinatorSnapshot, CoordinatorSummary};
use crate::engine::coordinator_laws::law_plan_divides;
use crate::engine::index_state::{count_marked, slice_count, slice_marked, valid_slice_mask, IndexStateMap};
use crate::engine::metrics::SchedulerMetrics;
use crate::engine::persistence::{join_path, log_path, log_root, metadata_path};
use crate::engine::ranges::ActiveRange;
use crate::engine::types::ScheduleMode;
use crate::service::DownloadTask;

verus! {

/// The value at `i` is the sum of the two before.
pub open spec fn is_sum_of_two(table: Seq<u64>, i: int) -> bool {
    table[i] == table[i - 1] + table[i - 2]
}

/// The table begins with one and two, goes on with the sum of the two values
/// before, and ends before a value whose megabytes no longer fit.
pub proof fn law_the_table_grows_by_sums(table: Vec<u64>)
    requires
        call_ensures(build_fib_mb, (), table),
    ensures
        table@.len() >= 2,
        table@[0] == 1,
        table@[1] == 2,
        forall|i: int| 2 <= i < table@.len() ==> #[trigger] is_sum_of_two(table@, i),
        forall|i: int| 0 <= i < table@.len() ==> #[trigger] table@[i] * 1048576 <= u64::MAX,
        (table@[table@.len() - 1] + table@[table@.len() - 2]) * 1048576 > u64::MAX - 1048576,
{
    use_table(table@);
}

proof fn use_table(table: Seq<u64>)
    requires
        crate::engine::builders::is_fib_table(table),
    ensures
        table.len() >= 2,
        table[0] == 1,
        table[1] == 2,
        forall|i: int| 2 <= i < table.len() ==> #[trigger] is_sum_of_two(table, i),
        forall|i: int| 0 <= i < table.len() ==> #[trigger] table[i] * 1048576 <= u64::MAX,
        (table[table.len() - 1] + table[table.len() - 2]) * 1048576 > u64::MAX - 1048576,
{
    let n = table.len() as int;
    assert(table[0] == crate::engine::builders::fib_value(0));
    assert(table[1] == crate::engine::builders::fib_value(1));
    assert forall|i: int| 2 <= i < n implies #[trigger] is_sum_of_two(table, i) by {
        assert(table[i] == crate::engine::builders::fib_value(i as nat));
        assert(table[i - 1] == crate::engine::builders::fib_value((i - 1) as nat));
        assert(table[i - 2] == crate::engine::builders::fib_value((i - 2) as nat));
    }
    assert forall|i: int| 0 <= i < n implies #[trigger] table[i] * 1048576 <= u64::MAX by {
        assert(table[i] == crate::engine::builders::fib_value(i as nat));
        assert(table[n - 1] == crate::engine::builders::fib_value((n - 1) as nat));
        if i < n - 1 {
            crate::engine::builders::lemma_fib_increasing(i as nat, (n - 1) as nat);
        }
    }
    assert(table[n - 1] == crate::engine::builders::fib_value((n - 1) as nat));
    assert(table[n - 2] == crate::engine::builders::fib_value((n - 2) as nat));
    assert(crate::engine::builders::fib_value(n as nat) == table[n - 1] + table[n - 2]);
}

/// The first value that reaches a floor: no value before it does.
pub proof fn law_the_first_value_is_found(table: &[u64], floor: u64, r: Option<usize>)
    requires
        call_ensures(first_reaching, (table, floor), r),
    ensures
        match r {
            Some(i) => i < table@.len() && table@[i as int] >= floor && forall|k: int|
                0 <= k < i ==> #[trigger] table@[k] < floor,
            None => forall|k: int| 0 <= k < table@.len() ==> #[trigger] table@[k] < floor,
        },
{
}

/// A dry run begins at the front of the table; a live one no earlier than
/// needed: at thirteen megabytes, or so early that every connection has a
/// range.
pub proof fn law_seeds_begin(table: &[u64], support: usize, n: usize, dry: bool, r: usize, live: Option<usize>)
    requires
        call_ensures(choose_seed_start_idx, (table, support, n, dry), r),
        call_ensures(first_reaching, (table, 13u64), live),
    ensures
        dry ==> r == 0,
        r <= support,
        !dry && n >= 1 && n <= support ==> r + n <= support,
        !dry && support > 0 && (live matches Some(i) && (i + n <= support && n >= 1)) ==> r == live->0,
        !dry && support > 0 && live is None ==> r == 0,
        !dry && support > n && n >= 1 && (live matches Some(i) && i + n > support) ==> r + n == support,
{
    assert(table.len() == table@.len());
    if !dry && support > 0 {
        if live is Some {
            let i = live->0 as int;
            assert(table@[i] >= 13);
            if exists|d: int| #[trigger] crate::engine::builders::is_first_reaching(table@, 13, d) {
                let d = choose|d: int| #[trigger] crate::engine::builders::is_first_reaching(table@, 13, d);
                assert(table@[i] >= 13);
                assert(table@[d] >= 13);
                assert(d == i) by {
                    if d < i {
                        assert(table@[d] < 13);
                    }
                    if i < d {
                        assert(table@[i] < 13);
                    }
                }
            }
            assert forall|d: int| #[trigger]
                crate::engine::builders::is_first_reaching(table@, 13, d) implies d == i by {
                if d < i {
                    assert(table@[d] < 13);
                }
                if i < d {
                    assert(table@[i] < 13);
                }
            }
        } else {
            assert forall|d: int| !#[trigger] crate::engine::builders::is_first_reaching(table@, 13, d) by {
                if 0 <= d < table@.len() {
                    assert(table@[d] < 13);
                }
            }
        }
    }
}

/// The ranges follow each other from the front of the file to its end, without
/// a gap and none of them empty.
pub open spec fn is_chain(s: Seq<RangeSpec>, total: int) -> bool {
    &&& s.len() > 0
    &&& s[0].byte_start == 0
    &&& s[s.len() - 1].byte_end == total
    &&& forall|k: int| 0 <= k < s.len() ==> (#[trigger] s[k]).byte_start < s[k].byte_end
    &&& forall|k: int| 0 < k < s.len() ==> (#[trigger] s[k]).byte_start == s[k - 1].byte_end
}

/// Ranges that are cut at the table are a chain through the file, each cut but
/// the ends lies at the next value of the table, and no cut is left out.
pub proof fn law_seeds_are_cut_at_the_table(
    table: Vec<u64>,
    values: &[u64],
    start: usize,
    support: usize,
    total: u64,
    r: Vec<RangeSpec>,
)
    requires
        call_ensures(build_fib_mb, (), table),
        values@ == table@,
        start < support < table@.len(),
        total > 0,
        call_ensures(build_seed_ranges, (values, start, support, total), r),
    ensures
        is_chain(r@, total as int),
        r@.len() <= support - start,
        forall|k: int| 0 <= k < r@.len() ==> (#[trigger] r@[k]).id == k,
        forall|k: int| 0 < k < r@.len() ==> (#[trigger] r@[k]).byte_start == table@[start + k] * 1048576,
        forall|k: int| 0 <= k < r@.len() ==> (#[trigger] r@[k]).label_start_mb == table@[start + k],
        forall|k: int| 0 <= k < r@.len() ==> (#[trigger] r@[k]).label_end_mb == table@[start + k + 1],
        r@.len() < support - start ==> total <= table@[start + r@.len()] * 1048576,
{
    assert(values.len() == values@.len());
    crate::engine::builders::lemma_table_grows(table@, start as int, support as int);
    crate::engine::builders::lemma_seed_ranges_tile(table@, start as int, support as int, total as int, r@);
}

/// Nothing is cut of an empty file, and nothing for no connection.
pub proof fn law_nothing_is_cut_of_nothing(total: u64, n: usize, r: Vec<RangeSpec>)
    requires
        call_ensures(build_equal_ranges, (total, n), r),
        total == 0 || n == 0,
    ensures
        r@.len() == 0,
{
}

/// Equal ranges are a chain through the file, no more of them than connections
/// or megabytes, and no two differ by more than a byte.
pub proof fn law_equal_ranges_are_equal(total: u64, n: usize, r: Vec<RangeSpec>)
    requires
        n > 0,
        total > 0,
        call_ensures(build_equal_ranges, (total, n), r),
    ensures
        is_chain(r@, total as int),
        r@.len() <= n,
        r@.len() < n ==> (r@.len() - 1) * 1048576 < total <= r@.len() * 1048576,
        r@.len() == n ==> (n - 1) * 1048576 < total,
        forall|i: int, j: int|
            0 <= i <= j < r@.len() ==> {
                let a = (#[trigger] r@[i]).byte_end - r@[i].byte_start;
                let b = (#[trigger] r@[j]).byte_end - r@[j].byte_start;
                b <= a <= b + 1
            },
        forall|k: int| 0 <= k < r@.len() ==> (#[trigger] r@[k]).id == k,
        forall|k: int|
            0 <= k < r@.len() ==> (#[trigger] r@[k]).label_start_mb * 1048576 <= r@[k].byte_start < (r@[k].label_start_mb
                + 1) * 1048576,
        forall|k: int|
            0 <= k < r@.len() ==> (#[trigger] r@[k]).label_end_mb * 1048576 >= r@[k].byte_end > (r@[k].label_end_mb - 1)
                * 1048576,
{
    lemma_equal_ranges_tile(total as int, n as int, r@);
    let lanes = r@.len() as int;
    let q = total as int / lanes;
    let m = total as int % lanes;
    assert forall|k: int| 0 <= k < lanes implies (#[trigger] r@[k]).byte_end - r@[k].byte_start == q + if k < m {
        1int
    } else {
        0
    } by {
        assert((k + 1) * q == k * q + q) by (nonlinear_arith);
    }
}

/// Geometric ranges are a chain through the file.
pub proof fn law_geometric_ranges_are_a_chain(total: u64, counts: &[u64], block: u64, r: Vec<RangeSpec>)
    requires
        total > 0,
        counts@.len() < usize::MAX,
        call_ensures(build_phi_geometric_ranges, (total, counts, block), r),
    ensures
        is_chain(r@, total as int),
        r@.len() <= counts@.len() + 1,
        counts@.len() > 0 && block > 0 && counts@[0] >= 1 && counts@[0] * block <= total ==> r@[0].byte_end == counts@[0]
            * block || (r@[0].byte_end == total && counts@[0] * block == total),
{
    let n = counts@.len() as int + 1;
    assert(counts.len() == counts@.len());
    let first = crate::engine::builders::geometric_cut(total as int, counts@, block as int, 1);
    if n > 1 && first < block {
        lemma_equal_ranges_tile(total as int, n, r@);
        if block > 0 && counts@[0] >= 1 && counts@[0] * block <= total {
            assert(counts@[0] * block >= block) by (nonlinear_arith)
                requires
                    counts@[0] >= 1,
                    block > 0,
            ;
            reveal_with_fuel(crate::engine::builders::geometric_cut, 2);
            assert(false);
        }
    } else {
        lemma_geometric_ranges_tile(total as int, counts@, block as int, r@);
        crate::engine::builders::lemma_geometric_ids(total as int, counts@, block as int, n);
        if n > 1 && block > 0 && counts@[0] >= 1 && counts@[0] * block <= total {
            reveal_with_fuel(crate::engine::builders::geometric_cut, 2);
            assert(counts@[0] * block >= 1) by (nonlinear_arith)
                requires
                    counts@[0] >= 1,
                    block > 0,
            ;
            assert(first == counts@[0] * block);
            lemma_first_id(total as int, counts@, block as int, n);
        }
    }
}

proof fn lemma_first_id(total: int, counts: Seq<u64>, block: int, n: int)
    requires
        1 <= n <= counts.len() + 1,
        crate::engine::builders::geometric_cut(total, counts, block, 1) > 0,
    ensures
        crate::engine::builders::geometric_ids(total, counts, block, n).len() > 0,
        crate::engine::builders::geometric_ids(total, counts, block, n)[0] == 0,
    decreases n,
{
    if n > 1 {
        lemma_first_id(total, counts, block, n - 1);
    } else {
        reveal_with_fuel(crate::engine::builders::geometric_ids, 2);
        assert(crate::engine::builders::geometric_cut(total, counts, block, 0) == 0);
    }
}

/// Every byte of the file is in one range, and in one only.
pub open spec fn is_cut_up(s: Seq<ActiveRange>, total: int) -> bool {
    &&& forall|i: int| 0 <= i < s.len() ==> (#[trigger] s[i]).byte_start <= s[i].end <= total
    &&& forall|b: int| 0 <= b < total ==> #[trigger] is_somewhere(s, b)
    &&& forall|i: int, j: int|
        0 <= i < j < s.len() ==> (#[trigger] s[i]).end <= (#[trigger] s[j]).byte_start || s[j].end <= s[i].byte_start
}

/// A byte is in some range.
pub open spec fn is_somewhere(s: Seq<ActiveRange>, b: int) -> bool {
    exists|i: int| 0 <= i < s.len() && (#[trigger] s[i]).byte_start <= b < s[i].end
}

/// A file can be downloaded if the largest value of the table covers it.
pub proof fn law_files_fit_the_table(
    total: u64,
    limit_mb: u64,
    n: usize,
    dry: bool,
    mode: ScheduleMode,
    metrics: SchedulerMetrics,
    floor: u64,
    counts: &[u64],
    r: Result<Coordinator, CoordinatorError>,
    table: Vec<u64>,
)
    requires
        call_ensures(build_fib_mb, (), table),
        call_ensures(Coordinator::new, (total, limit_mb, n, dry, mode, metrics, floor, counts), r),
    ensures
        r is Ok <==> total <= table@[table@.len() - 1] * 1048576,
{
    let t = table@;
    let last = t.len() - 1;
    assert(crate::engine::builders::is_fib_table(t));
    assert(t[last] == crate::engine::builders::fib_value(last as nat));
    assert(t[0] == crate::engine::builders::fib_value(0));
    crate::engine::builders::lemma_fib_increasing(0, last as nat);
    if crate::engine::coordinator::fits_range_table(total as int) {
        let i = choose|i: nat|
            #![trigger crate::engine::builders::fib_value(i)]
            crate::engine::builders::fib_value(i) <= crate::engine::builders::max_table_mb()
                && crate::engine::builders::fib_value(i) >= crate::units::max_int(
                crate::units::ceil_div(total as int, 1048576),
                1,
            );
        if i > t.len() {
            crate::engine::builders::lemma_fib_increasing(t.len(), i);
        }
        if i < last {
            crate::engine::builders::lemma_fib_increasing(i, last as nat);
        }
    }
}

/// A new coordinator has the whole file to hand out and has handed out nothing:
/// every range waits, untouched, from its front.
pub proof fn law_a_new_file_is_all_missing(
    total: u64,
    limit_mb: u64,
    n: usize,
    dry: bool,
    mode: ScheduleMode,
    metrics: SchedulerMetrics,
    floor: u64,
    counts: &[u64],
    r: Result<Coordinator, CoordinatorError>,
)
    requires
        call_ensures(Coordinator::new, (total, limit_mb, n, dry, mode, metrics, floor, counts), r),
        mode == ScheduleMode::FibAdaptive ==> n < usize::MAX && counts@.len() + 1 == if n >= 1 {
            n as int
        } else {
            1
        },
    ensures
        r matches Ok(c) ==> {
            &&& mode != ScheduleMode::Fib || total > 1048576 ==> is_cut_up(c.dl_ranges@, total as int)
            &&& forall|i: int|
                0 <= i < c.dl_ranges@.len() ==> {
                    let g = #[trigger] c.dl_ranges@[i];
                    &&& g.cursor == g.byte_start
                    &&& g.assigned_to == 0xFFFF_FFFF
                    &&& g.status == 0
                    &&& g.recent_speed_bps == 0
                    &&& g.parent_range_id is None
                }
            &&& c.next_unassigned_idx == 0
            &&& limit_mb >= 1 ==> c.borrow_limit_bytes == limit_mb * 1048576
            &&& limit_mb == 0 ==> c.borrow_limit_bytes == 1048576
            &&& c.adaptive_minimum_steal_bytes == floor
            &&& c.total_size == total
            &&& c.next_range_id == c.dl_ranges@.len() + 1
            &&& c.index_state.total_size == total
            &&& forall|i: int| 0 <= i < c.index_state.buckets@.len() ==> #[trigger] c.index_state.buckets@[i] == 0
            &&& c.metrics == metrics
        },
{
    if let Ok(c) = r {
        assert(counts.len() == counts@.len());
        let seeds = choose|seeds: Seq<RangeSpec>|
            {
                &&& #[trigger] crate::engine::coordinator::is_seed_plan(
                    mode,
                    total as int,
                    n as int,
                    dry,
                    counts@,
                    seeds,
                )
                &&& c@.ranges == seeds.map_values(|spec: RangeSpec| crate::engine::coordinator::fresh_range(spec))
                &&& c@.next_range_id == seeds.len() + 1
            };
        law_plan_divides(mode, total as int, n as int, dry, counts@, seeds);
        let all = c.dl_ranges@;
        assert(all == seeds.map_values(|spec: RangeSpec| crate::engine::coordinator::fresh_range(spec)));
        if mode != ScheduleMode::Fib || total > 1048576 {
            assert forall|i: int| 0 <= i < all.len() implies (#[trigger] all[i]).byte_start <= all[i].end
                <= total by {
                assert(all[i].in_order(total as int));
            }
            assert forall|b: int| 0 <= b < total implies #[trigger] is_somewhere(all, b) by {
                assert(crate::engine::coordinator_laws::covered(all, b));
                let i = choose|i: int| 0 <= i < all.len() && (#[trigger] all[i]).holds(b);
                assert(all[i].byte_start <= b < all[i].end);
            }
        }
        assert(c@.marks == c.index_state.buckets@);
        assert(c@.next_unassigned == c.next_unassigned_idx);
    }
}

/// A coordinator that goes on from what was kept of another one has the same
/// ranges at the same cursors and the same marks; ranges that were not finished
/// wait for a connection.
pub proof fn law_what_is_kept_goes_on(
    c: &Coordinator,
    s: CoordinatorSnapshot,
    metrics: SchedulerMetrics,
    floor: u64,
    r: Coordinator,
)
    requires
        c.wf(),
        call_ensures(Coordinator::snapshot, (c,), s),
        call_ensures(Coordinator::from_snapshot, (s, c.total_size, metrics, floor), r),
    ensures
        r.dl_ranges@.len() == c.dl_ranges@.len(),
        forall|i: int|
            0 <= i < r.dl_ranges@.len() ==> {
                let a = c.dl_ranges@[i];
                let b = #[trigger] r.dl_ranges@[i];
                &&& b.id == a.id
                &&& b.byte_start == a.byte_start
                &&& b.cursor == a.cursor
                &&& b.end == a.end
                &&& b.label_start_mb == a.label_start_mb
                &&& b.label_end_mb == a.label_end_mb
                &&& b.parent_range_id == a.parent_range_id
                &&& b.recent_speed_bps == 0
                &&& b.last_sample_at_ms == 0
                &&& a.status == 2 ==> b.status == 2 && b.assigned_to == a.assigned_to
                &&& a.status != 2 ==> b.status == 0 && b.assigned_to == 0xFFFF_FFFF
            },
        r.next_unassigned_idx == c.next_unassigned_idx,
        r.borrow_limit_bytes == c.borrow_limit_bytes,
        r.borrow_cursor == c.borrow_cursor,
        r.next_range_id == c.next_range_id,
        r.total_size == c.total_size,
        r.adaptive_minimum_steal_bytes == floor,
        r.index_state.total_size == c.total_size,
        r.index_state.buckets@ == c.index_state.buckets@,
        r.metrics == metrics,
{
    assert(r@.ranges == r.dl_ranges@);
    assert(s@.ranges == s.dl_ranges@);
    assert(r@.marks == r.index_state.buckets@);
    assert(c@.marks == c.index_state.buckets@);
    assert(r.index_state.buckets@ =~= c.index_state.buckets@);
    assert(r@.next_unassigned == r.next_unassigned_idx);
    assert(r@.borrow_limit == r.borrow_limit_bytes);
    assert(r@.borrow_cursor == r.borrow_cursor);
    assert(r@.next_range_id == r.next_range_id);
    assert(r@.total == r.total_size);
    assert(r@.map_size == r.index_state.total_size);
}

/// The marked slices of a file, as a set.
pub open spec fn marked_slices(buckets: Seq<u8>, slices: int, n: int) -> Set<int> {
    Set::new(|i: int| 0 <= i < n && i < slices && slice_marked(buckets, i))
}

proof fn lemma_count_is_a_number(buckets: Seq<u8>, slices: int, n: int)
    requires
        n >= 0,
    ensures
        marked_slices(buckets, slices, n).finite(),
        marked_slices(buckets, slices, n).len() == count_marked(buckets, slices, n),
    decreases n,
{
    let all = marked_slices(buckets, slices, n);
    if n == 0 {
        assert(all =~= Set::empty());
    } else {
        lemma_count_is_a_number(buckets, slices, n - 1);
        let before = marked_slices(buckets, slices, n - 1);
        if slice_marked(buckets, n - 1) && n - 1 < slices {
            assert(all =~= before.insert(n - 1));
        } else {
            assert(all =~= before);
        }
    }
}

/// What is counted as complete are the marked slices of the file, each once.
pub proof fn law_complete_slices_are_counted(m: &IndexStateMap, r: u64)
    requires
        m.wf(),
        call_ensures(IndexStateMap::completed_slices, (m,), r),
    ensures
        ({
            let slices = (m.total_size + 1048575) / 1048576;
            r == Set::new(
                |i: int|
                    0 <= i < slices && i < 8 * m.buckets@.len() && (m.buckets@[i / 8] >> ((i % 8) as u8)) & 1u8 == 1u8,
            ).len()
        }),
{
    let slices = (m.total_size + 1048575) / 1048576;
    let n = 8 * m.buckets@.len() as int;
    lemma_count_is_a_number(m.buckets@, slice_count(m.total_size as int), n);
    assert(Set::new(
        |i: int| 0 <= i < slices && i < 8 * m.buckets@.len() && (m.buckets@[i / 8] >> ((i % 8) as u8)) & 1u8 == 1u8,
    ) =~= marked_slices(m.buckets@, slice_count(m.total_size as int), n));
}

/// A map has a bit for every megabyte of the file; a new one has none set, and
/// one that was kept has those that were.
pub proof fn law_maps_fit_the_file(total: u64, a: IndexStateMap, bits: Vec<u8>, b: IndexStateMap)
    requires
        call_ensures(IndexStateMap::new, (total,), a),
        call_ensures(IndexStateMap::from_snapshot, (total, bits), b),
    ensures
        a.buckets@.len() == (total + 8388607) / 8388608,
        b.buckets@.len() == (total + 8388607) / 8388608,
        a.total_size == total,
        b.total_size == total,
        forall|i: int| 0 <= i < a.buckets@.len() ==> #[trigger] a.buckets@[i] == 0,
        forall|i: int| 0 <= i < b.buckets@.len() && i < bits@.len() ==> #[trigger] b.buckets@[i] == bits@[i],
        forall|i: int| 0 <= i < b.buckets@.len() && i >= bits@.len() ==> #[trigger] b.buckets@[i] == 0,
{
}

/// The bits of a bucket that count are those of megabytes that the file has.
pub proof fn law_masks_end_with_the_file(total: u64, bucket: usize, mask: u8, k: u8)
    requires
        k < 8,
        call_ensures(valid_slice_mask, (total, bucket), mask),
    ensures
        (mask >> k) & 1u8 == 1u8 <==> (bucket * 8 + k) * 1048576 < total,
{
    assert(crate::engine::index_state::bit(mask, k as int) <==> bucket * 8 + k < slice_count(total as int));
}

/// What is summed up at the end is what there is.
pub proof fn law_summaries_are_true(c: &mut Coordinator, total: u64, r: CoordinatorSummary, done: u64)
    requires
        old(c).index_state.wf(),
        call_ensures(Coordinator::log_summary, (c, total), r),
        call_ensures(IndexStateMap::completed_slices, (&old(c).index_state,), done),
    ensures
        r.total_size == total,
        r.final_ranges == old(c).dl_ranges@.len(),
        r.vector_consumed == old(c).next_unassigned_idx,
        r.index_state_buckets == old(c).index_state.buckets@.len(),
        r.index_state_bytes == old(c).index_state.buckets@.len(),
        r.completed_slices == done,
        final(c)@.metrics.adaptive_min_steal_bytes_final == old(c).adaptive_minimum_steal_bytes,
        final(c)@.ranges == old(c).dl_ranges@,
{
    assert(old(c).dl_ranges.len() == old(c).dl_ranges@.len());
    assert(old(c).index_state.buckets.len() == old(c).index_state.buckets@.len());
}

/// A halted download hands out no work and keeps its state.
pub proof fn law_halted_downloads_hand_out_nothing(c: &mut Coordinator, id: u32, work: Option<usize>)
    requires
        call_ensures(Coordinator::work_for, (c, id, true), work),
    ensures
        work is None,
        final(c)@ == old(c)@,
{
}

/// A name is below its directory, with one slash between; an absolute name
/// stands for itself.
pub proof fn law_paths_are_joined(base: &str, name: &str, r: String)
    requires
        call_ensures(join_path, (base, name), r),
    ensures
        base@.len() == 0 ==> r@ == name@,
        name@.len() > 0 && name@[0] == '/' ==> r@ == name@,
        base@.len() > 0 && !(name@.len() > 0 && name@[0] == '/') ==> {
            let n = if base@[base@.len() - 1] == '/' {
                base@.len() as int
            } else {
                base@.len() as int + 1
            };
            &&& r@.len() == n + name@.len()
            &&& r@.subrange(0, base@.len() as int) == base@
            &&& r@[n - 1] == '/'
            &&& r@.subrange(n, r@.len() as int) == name@
        },
{
    reveal_strlit("/");
    if name@.len() > 0 {
        assert(name@.take(1)[0] == name@[0]);
        assert(name@.subrange(0, 1)[0] == name@[0]);
        if name@[0] == '/' {
            assert(name@.take(1) =~= "/"@);
            assert(name@.subrange(0, 1) =~= "/"@);
        }
    }
    if base@.len() > 0 {
        let n = base@.len() as int;
        assert(base@.skip(n - 1)[0] == base@[n - 1]);
        assert(base@.subrange(n - 1, n)[0] == base@[n - 1]);
        if base@[n - 1] == '/' {
            assert(base@.skip(n - 1) =~= "/"@);
            assert(base@.subrange(n - 1, n) =~= "/"@);
        }
        if !(name@.len() > 0 && name@[0] == '/') {
            assert(!crate::text::starts_with(name@, "/"@));
            assert(r@.subrange(0, n) =~= base@);
            if base@[n - 1] == '/' {
                assert(r@.subrange(n, r@.len() as int) =~= name@);
            } else {
                assert(!crate::text::ends_with(base@, "/"@));
                assert(r@.subrange(n + 1, r@.len() as int) =~= name@);
            }
        }
    }
}

/// The log and the state of a download go by its file's name, below the
/// directory for logs where one is given, else below its own.
pub proof fn law_files_have_their_places(
    task: &DownloadTask,
    log: String,
    meta: String,
    top: &str,
    logs: &str,
    metas: &str,
    a: String,
    b: String,
    name: &str,
    meta_name: &str,
    c: String,
    d: String,
)
    requires
        call_ensures(log_path, (task,), log),
        call_ensures(metadata_path, (task,), meta),
        match task.log_root {
            Some(given) => top@ == given@ && logs@ == "tur"@ && metas@ == "tur-meta"@,
            None => exists|dir: &str, sub: &str, r: String|
                dir@ == task.dir@ && sub@ == ".tur"@ && #[trigger] call_ensures(join_path, (dir, sub), r) && top@ == r@
                    && logs@ == "logs"@ && metas@ == "meta"@,
        },
        call_ensures(join_path, (top, logs), a),
        call_ensures(join_path, (top, metas), b),
        name@ == task.filename@ + ".log"@,
        meta_name@ == task.filename@ + ".tur.meta"@,
        exists|p: &str| p@ == a@ && #[trigger] call_ensures(join_path, (p, name), c),
        exists|p: &str| p@ == b@ && #[trigger] call_ensures(join_path, (p, meta_name), d),
    ensures
        log@ == c@,
        meta@ == d@,
{
}

} // verus!
