//! How a file is cut into its first byte ranges.

use vstd::prelude::*;
use crate::units::{
    bytes_to_ceiling_mb, bytes_to_floor_mb, ceil_div, clamp_int, div_ceil_u64, max_int, max_usize, min_int,
    min_u64, min_usize, MB,
};

verus! {

/// The smallest support, in megabytes, that a live seed range should begin at.
pub const LIVE_SEED_FLOOR_MB: u64 = 13;

/// A byte range before it is handed out.
#[derive(Debug, Clone, Copy, PartialEq, Eq)]
pub struct RangeSpec {
    pub id: u64,
    pub label_start_mb: u64,
    pub label_end_mb: u64,
    pub byte_start: u64,
    pub byte_end: u64,
}

/// The largest number of whole megabytes that a `u64` can count in bytes.
pub open spec fn max_table_mb() -> int {
    u64::MAX as int / MB as int
}

/// The support table 1, 2, 3, 5, 8, ...: each value is the sum of the two before it.
pub open spec fn fib_value(i: nat) -> nat
    decreases i,
{
    if i == 0 {
        1
    } else if i == 1 {
        2
    } else {
        fib_value((i - 1) as nat) + fib_value((i - 2) as nat)
    }
}

/// `table` holds the first values of the support table.
pub open spec fn is_fib_prefix(table: Seq<u64>) -> bool {
    forall|i: int| 0 <= i < table.len() ==> #[trigger] table[i] == fib_value(i as nat)
}

/// `table` holds every value of the support table that is within `max_table_mb`.
pub open spec fn is_fib_table(table: Seq<u64>) -> bool {
    &&& table.len() >= 2
    &&& is_fib_prefix(table)
    &&& table.last() <= max_table_mb()
    &&& fib_value(table.len()) > max_table_mb()
}

/// Each value of the support table is less than the next and more than its position.
pub proof fn lemma_fib_step(i: nat)
    ensures
        fib_value(i) < fib_value(i + 1),
        fib_value(i) > i,
    decreases i,
{
    if i >= 2 {
        lemma_fib_step((i - 1) as nat);
        lemma_fib_step((i - 2) as nat);
    } else {
        reveal_with_fuel(fib_value, 3);
    }
}

/// The support table grows strictly.
pub proof fn lemma_fib_increasing(i: nat, j: nat)
    requires
        i < j,
    ensures
        fib_value(i) < fib_value(j),
    decreases j - i,
{
    lemma_fib_step(i);
    if i + 1 < j {
        lemma_fib_increasing(i + 1, j);
    }
}

/// Every value of the support table whose bytes fit in a `u64`.
pub fn build_fib_mb() -> (fib: Vec<u64>)
    ensures
        is_fib_table(fib@),
{
    let mut fib: Vec<u64> = vec![1, 2];
    let max_mb: u64 = u64::MAX / MB;
    proof {
        reveal_with_fuel(fib_value, 3);
    }
    loop
        invariant
            fib@.len() >= 2,
            is_fib_prefix(fib@),
            fib@.last() <= max_mb,
            max_mb == max_table_mb(),
        ensures
            is_fib_table(fib@),
        decreases max_mb - fib@.last(),
    {
        let len: usize = fib.len();
        let a: u64 = fib[len - 1];
        let b: u64 = fib[len - 2];
        proof {
            lemma_fib_step((len - 2) as nat);
            lemma_fib_step((len - 1) as nat);
            assert(fib_value(len as nat) == fib_value((len - 1) as nat) + fib_value((len - 2) as nat));
        }
        let next: Option<u64> = a.checked_add(b);
        match next {
            Some(v) => {
                if v > max_mb {
                    break;
                }
                fib.push(v);
            },
            None => {
                break;
            },
        }
    }
    fib
}

/// `i` is the first position of `table` whose value reaches `floor`.
pub open spec fn is_first_reaching(table: Seq<u64>, floor: int, i: int) -> bool {
    &&& 0 <= i < table.len()
    &&& table[i] >= floor
    &&& forall|k: int| 0 <= k < i ==> #[trigger] table[k] < floor
}

/// No value of `table` reaches `floor`.
pub open spec fn none_reaches(table: Seq<u64>, floor: int) -> bool {
    forall|k: int| 0 <= k < table.len() ==> #[trigger] table[k] < floor
}

/// The first position of `table` whose value reaches `floor`.
pub fn first_reaching(table: &[u64], floor: u64) -> (r: Option<usize>)
    ensures
        match r {
            Some(i) => is_first_reaching(table@, floor as int, i as int),
            None => forall|k: int| 0 <= k < table.len() ==> #[trigger] table[k] < floor,
        },
        r is None ==> none_reaches(table@, floor as int),
{
    let mut i: usize = 0;
    while i < table.len()
        invariant
            i <= table.len(),
            forall|k: int| 0 <= k < i ==> #[trigger] table[k] < floor,
        decreases table.len() - i,
    {
        if table[i] >= floor {
            return Some(i);
        }
        i = i + 1;
    }
    None
}

/// Where the seed ranges begin in the support table: a dry run begins at the
/// front; a live run begins at the first value of `LIVE_SEED_FLOOR_MB` or
/// more, or earlier where fewer than `connections` ranges would be left.
pub fn choose_seed_start_idx(
    fib_mb: &[u64],
    support_idx: usize,
    connections: usize,
    dry_run: bool,
) -> (r: usize)
    ensures
        dry_run || support_idx == 0 ==> r == 0,
        !dry_run && support_idx > 0 ==> {
            let lane_bound = max_int(support_idx - max_int(connections as int, 1), 0);
            ||| (forall|k: int| 0 <= k < fib_mb.len() ==> #[trigger] fib_mb[k] < LIVE_SEED_FLOOR_MB) && r == 0
            ||| exists|d: int| #[trigger]
                is_first_reaching(fib_mb@, LIVE_SEED_FLOOR_MB as int, d) && r == min_int(d, lane_bound)
        },
        r <= support_idx,
{
    if dry_run || support_idx == 0 {
        return 0;
    }
    let desired_start: usize = match first_reaching(fib_mb, LIVE_SEED_FLOOR_MB) {
        Some(i) => i,
        None => 0,
    };
    let max_start_with_enough_lanes: usize = support_idx.saturating_sub(max_usize(connections, 1));
    min_usize(desired_start, max_start_with_enough_lanes)
}

/// How many seed ranges are needed: `n` is the number of table steps from
/// `start` up to the one that reaches `total` bytes, or up to `support`.
pub open spec fn is_seed_count(table: Seq<u64>, start: int, support: int, total: int, n: int) -> bool {
    if start >= support || total == 0 {
        n == 0
    } else {
        &&& 1 <= n <= support - start
        &&& forall|k: int| start < k < start + n ==> #[trigger] table[k] * MB < total
        &&& n == support - start || table[start + n] * MB >= total
    }
}

/// The `k`th of `n` seed ranges.
pub open spec fn is_seed_range(
    table: Seq<u64>,
    start: int,
    total: int,
    n: int,
    k: int,
    r: RangeSpec,
) -> bool {
    &&& r.id == k
    &&& r.label_start_mb == table[start + k]
    &&& r.label_end_mb == table[start + k + 1]
    &&& r.byte_start == if k == 0 { 0 } else { table[start + k] * MB }
    &&& r.byte_end == if k == n - 1 { total } else { table[start + k + 1] * MB }
}

/// Where the ranges `s` end.
pub open spec fn end_of(s: Seq<RangeSpec>) -> int {
    if s.len() == 0 {
        0
    } else {
        s.last().byte_end as int
    }
}

/// The ranges of `total` bytes between the values of any table from `start`
/// to `idx`: a value that does not reach beyond the range before makes none.
pub open spec fn cut_ranges(table: Seq<u64>, start: int, idx: int, total: u64) -> Seq<RangeSpec>
    decreases idx - start,
{
    if idx <= start {
        Seq::empty()
    } else {
        let before = cut_ranges(table, start, idx - 1, total);
        let end = min_int(table[idx] * MB, total as int);
        if end <= end_of(before) {
            before
        } else {
            before.push(
                RangeSpec {
                    id: before.len() as u64,
                    label_start_mb: table[idx - 1],
                    label_end_mb: table[idx],
                    byte_start: end_of(before) as u64,
                    byte_end: end as u64,
                },
            )
        }
    }
}

/// The ranges with the last one drawn out to the end of the file.
pub open spec fn drawn_out(s: Seq<RangeSpec>, total: u64) -> Seq<RangeSpec> {
    if s.len() == 0 {
        s
    } else {
        s.update(s.len() - 1, RangeSpec { byte_end: total, ..s.last() })
    }
}

/// The values of `table` grow strictly from `start` to `support`, and those
/// behind the first are not zero.
pub open spec fn grows(table: Seq<u64>, start: int, support: int) -> bool {
    &&& start < support ==> table[start + 1] > 0
    &&& forall|i: int, j: int| start <= i < j <= support ==> #[trigger] table[i] < #[trigger] table[j]
}

/// The support table grows.
pub proof fn lemma_table_grows(table: Seq<u64>, start: int, support: int)
    requires
        is_fib_prefix(table),
        0 <= start <= support < table.len(),
    ensures
        grows(table, start, support),
{
    assert forall|i: int, j: int| start <= i < j <= support implies #[trigger] table[i] < #[trigger] table[j] by {
        lemma_fib_increasing(i as nat, j as nat);
        assert(table[i] == fib_value(i as nat) && table[j] == fib_value(j as nat));
    }
    if start < support {
        assert(table[start] < table[start + 1]);
    }
}

/// In a table that grows there is a range for every value, up to the one that
/// reaches the end of the file.
proof fn lemma_cut_ranges(table: Seq<u64>, start: int, support: int, idx: int, total: u64)
    requires
        0 <= start <= idx <= support < table.len(),
        support <= u64::MAX,
        grows(table, start, support),
    ensures
        ({
            let s = cut_ranges(table, start, idx, total);
            let n = s.len() as int;
            &&& n <= idx - start
            &&& total == 0 ==> n == 0
            &&& total > 0 && idx > start ==> n >= 1
            &&& total > 0 ==> n == idx - start || table[start + n] * MB >= total
            &&& forall|k: int| start < k < start + n ==> #[trigger] table[k] * MB < total
            &&& n > 0 ==> end_of(s) == min_int(table[start + n] * MB, total as int)
            &&& forall|k: int|
                0 <= k < n ==> {
                    let r = #[trigger] s[k];
                    &&& r.id == k
                    &&& r.label_start_mb == table[start + k]
                    &&& r.label_end_mb == table[start + k + 1]
                    &&& r.byte_start == if k == 0 { 0 } else { table[start + k] * MB }
                    &&& r.byte_end == min_int(table[start + k + 1] * MB, total as int)
                }
        }),
    decreases idx - start,
{
    if idx > start {
        lemma_cut_ranges(table, start, support, idx - 1, total);
        let before = cut_ranges(table, start, idx - 1, total);
        let s = cut_ranges(table, start, idx, total);
        let n = before.len() as int;
        assert(table[idx - 1] < table[idx]);
        assert(table[idx] * MB > table[idx - 1] * MB) by (nonlinear_arith)
            requires
                table[idx] > table[idx - 1],
                MB > 0,
        ;
        if s.len() > n {
            assert forall|k: int| 0 <= k < n implies #[trigger] s[k] == before[k] by {}
        }
    }
}

/// Cuts `total_size` bytes at the values of a table between `seed_start_idx`
/// and `support_idx`.
pub fn build_seed_ranges(
    fib_mb: &[u64],
    seed_start_idx: usize,
    support_idx: usize,
    total_size: u64,
) -> (ranges: Vec<RangeSpec>)
    requires
        seed_start_idx < support_idx ==> support_idx < fib_mb.len(),
    ensures
        ranges@ == drawn_out(
            cut_ranges(fib_mb@, seed_start_idx as int, support_idx as int, total_size),
            total_size,
        ),
        seed_start_idx < support_idx && grows(fib_mb@, seed_start_idx as int, support_idx as int) ==> {
            &&& is_seed_count(
                fib_mb@,
                seed_start_idx as int,
                support_idx as int,
                total_size as int,
                ranges@.len() as int,
            )
            &&& forall|k: int| 0 <= k < ranges@.len() ==> is_seed_range(
                fib_mb@,
                seed_start_idx as int,
                total_size as int,
                ranges@.len() as int,
                k,
                #[trigger] ranges@[k],
            )
        },
{
    let mut ranges: Vec<RangeSpec> = Vec::new();
    let mut byte_start: u64 = 0;
    let mut idx: usize = seed_start_idx;
    let ghost start = seed_start_idx as int;
    while idx < support_idx
        invariant
            start == seed_start_idx,
            start <= idx,
            idx <= support_idx || idx == start,
            seed_start_idx < support_idx ==> support_idx < fib_mb.len(),
            ranges@.len() <= idx - start,
            ranges@ == cut_ranges(fib_mb@, start, idx as int, total_size),
            byte_start == end_of(ranges@),
        decreases support_idx - idx,
    {
        let label_start_mb: u64 = fib_mb[idx];
        let label_end_mb: u64 = fib_mb[idx + 1];
        let wide_end: u128 = (label_end_mb as u128) * (MB as u128);
        let byte_end: u64 = if wide_end <= total_size as u128 {
            wide_end as u64
        } else {
            total_size
        };
        if byte_end > byte_start {
            ranges.push(RangeSpec { id: ranges.len() as u64, label_start_mb, label_end_mb, byte_start, byte_end });
            byte_start = byte_end;
        }
        idx = idx + 1;
    }
    let ghost cut = ranges@;
    let len: usize = ranges.len();
    if len > 0 {
        let mut last: RangeSpec = ranges[len - 1];
        last.byte_end = total_size;
        ranges.set(len - 1, last);
    }
    proof {
        assert(cut == cut_ranges(fib_mb@, start, support_idx as int, total_size));
        if seed_start_idx < support_idx && grows(fib_mb@, start, support_idx as int) {
            lemma_cut_ranges(fib_mb@, start, support_idx as int, support_idx as int, total_size);
            assert forall|k: int| 0 <= k < ranges@.len() implies is_seed_range(
                fib_mb@,
                start,
                total_size as int,
                ranges@.len() as int,
                k,
                #[trigger] ranges@[k],
            ) by {
                assert(cut[k].id == k);
                if k < ranges@.len() - 1 {
                    assert(ranges@[k] == cut[k]);
                    assert(fib_mb[start + k + 1] * MB < total_size);
                }
            }
        }
    }
    ranges
}

/// How many lanes `total` bytes are dealt to: no more than `connections`, and
/// no more than there are megabytes begun.
pub open spec fn equal_lanes(total: int, connections: int) -> int {
    if total == 0 || connections == 0 {
        0
    } else {
        min_int(connections, ceil_div(total, MB as int))
    }
}

/// Where lane `i` of `lanes` begins: every lane holds `total / lanes` bytes,
/// and each of the first `total % lanes` lanes holds one more.
pub open spec fn equal_cut(total: int, lanes: int, i: int) -> int {
    i * (total / lanes) + min_int(i, total % lanes)
}

/// A range whose labels are its own bounds, rounded outwards to megabytes.
pub open spec fn is_plain_range(r: RangeSpec, id: int, byte_start: int, byte_end: int) -> bool {
    &&& r.id == id
    &&& r.byte_start == byte_start
    &&& r.byte_end == byte_end
    &&& r.label_start_mb == byte_start / MB as int
    &&& r.label_end_mb == ceil_div(byte_end, MB as int)
}

fn plain_range(id: u64, byte_start: u64, byte_end: u64) -> (r: RangeSpec)
    ensures
        is_plain_range(r, id as int, byte_start as int, byte_end as int),
{
    RangeSpec {
        id,
        label_start_mb: bytes_to_floor_mb(byte_start),
        label_end_mb: bytes_to_ceiling_mb(byte_end),
        byte_start,
        byte_end,
    }
}

/// What is left after `i` lanes, dealt to the lanes that are left, gives lane
/// `i` its share.
proof fn lemma_equal_cut(total: int, lanes: int, i: int)
    requires
        0 <= i < lanes <= total,
    ensures
        equal_cut(total, lanes, i + 1) == equal_cut(total, lanes, i) + ceil_div(
            total - equal_cut(total, lanes, i),
            lanes - i,
        ),
        0 <= equal_cut(total, lanes, i) < equal_cut(total, lanes, i + 1) <= total,
        equal_cut(total, lanes, lanes) == total,
{
    let base = total / lanes;
    let rem = total % lanes;
    assert(total == lanes * base + rem && 0 <= rem < lanes && base >= 1) by (nonlinear_arith)
        requires
            base == total / lanes,
            rem == total % lanes,
            0 < lanes <= total,
    ;
    let left = lanes - i;
    let extra = if i < rem { rem - i } else { 0 };
    let cut = equal_cut(total, lanes, i);
    assert(total - cut == left * base + extra && cut >= 0 && (i + 1) * base == i * base + base) by (nonlinear_arith)
        requires
            total == lanes * base + rem,
            left == lanes - i,
            extra == (if i < rem { rem - i } else { 0 }),
            cut == i * base + (if i <= rem { i } else { rem }),
            i >= 0,
            base >= 1,
            rem >= 0,
    ;
    let gap = total - cut;
    assert((gap + left - 1) / left == base + (if extra > 0 { 1int } else { 0 }) && left * base >= base
        + (left - 1)) by (nonlinear_arith)
        requires
            gap == left * base + extra,
            0 <= extra < left,
            base >= 1,
    ;
}

/// Deals `total_size` bytes to lanes of equal size, give or take one byte.
pub fn build_equal_ranges(total_size: u64, connections: usize) -> (ranges: Vec<RangeSpec>)
    ensures
        ranges@.len() == equal_lanes(total_size as int, connections as int),
        forall|k: int| 0 <= k < ranges@.len() ==> is_plain_range(
            #[trigger] ranges@[k],
            k,
            equal_cut(total_size as int, ranges@.len() as int, k),
            equal_cut(total_size as int, ranges@.len() as int, k + 1),
        ),
{
    let mut ranges: Vec<RangeSpec> = Vec::new();
    if total_size == 0 || connections == 0 {
        return ranges;
    }
    let megabytes: u64 = div_ceil_u64(total_size, MB);
    let lanes: u64 = min_u64(connections as u64, megabytes);
    let ghost total = total_size as int;
    let mut start: u64 = 0;
    let mut idx: u64 = 0;
    while idx < lanes
        invariant
            0 < lanes <= total,
            lanes <= connections,
            total == total_size,
            idx <= lanes,
            ranges@.len() == idx,
            start == equal_cut(total, lanes as int, idx as int),
            forall|k: int| 0 <= k < idx ==> is_plain_range(
                #[trigger] ranges@[k],
                k,
                equal_cut(total, lanes as int, k),
                equal_cut(total, lanes as int, k + 1),
            ),
        decreases lanes - idx,
    {
        proof {
            lemma_equal_cut(total, lanes as int, idx as int);
        }
        let chunk_size: u64 = div_ceil_u64(total_size - start, lanes - idx);
        let end: u64 = start + chunk_size;
        ranges.push(plain_range(idx, start, end));
        start = end;
        idx = idx + 1;
    }
    ranges
}

/// The cut points of a geometric division: `counts[i]` blocks, never before the
/// cut ahead of it and never past the end of the file.
pub open spec fn geometric_cut(file_size: int, counts: Seq<u64>, block_size: int, i: int) -> int
    decreases i,
{
    if i <= 0 {
        0
    } else if i > counts.len() {
        file_size
    } else {
        clamp_int(
            counts[i - 1] * block_size,
            geometric_cut(file_size, counts, block_size, i - 1),
            file_size,
        )
    }
}

/// The non-empty ranges among the first `n` between the geometric cuts.
pub open spec fn geometric_ids(file_size: int, counts: Seq<u64>, block_size: int, n: int) -> Seq<int>
    decreases n,
{
    if n <= 0 {
        Seq::empty()
    } else {
        let before = geometric_ids(file_size, counts, block_size, n - 1);
        if geometric_cut(file_size, counts, block_size, n) > geometric_cut(file_size, counts, block_size, n - 1) {
            before.push(n - 1)
        } else {
            before
        }
    }
}

proof fn lemma_geometric_cut(file_size: int, counts: Seq<u64>, block_size: int, i: int)
    requires
        0 <= i <= counts.len() + 1,
        file_size >= 0,
    ensures
        0 <= geometric_cut(file_size, counts, block_size, i) <= file_size,
    decreases i,
{
    if 0 < i {
        lemma_geometric_cut(file_size, counts, block_size, i - 1);
    }
}

/// Cuts `file_size` bytes into one range more than there are counts. The
/// `i`th cut lies `block_counts[i]` blocks into the file. A first range of
/// less than one block calls for equal ranges instead.
pub fn build_phi_geometric_ranges(
    file_size: u64,
    block_counts: &[u64],
    block_size: u64,
) -> (ranges: Vec<RangeSpec>)
    requires
        block_counts.len() < usize::MAX,
    ensures
        ({
            let n = block_counts.len() + 1;
            let ids = geometric_ids(file_size as int, block_counts@, block_size as int, n);
            if file_size == 0 {
                ranges@.len() == 0
            } else if n > 1 && geometric_cut(file_size as int, block_counts@, block_size as int, 1) < block_size {
                &&& ranges@.len() == equal_lanes(file_size as int, n)
                &&& forall|k: int| 0 <= k < ranges@.len() ==> is_plain_range(
                    #[trigger] ranges@[k],
                    k,
                    equal_cut(file_size as int, ranges@.len() as int, k),
                    equal_cut(file_size as int, ranges@.len() as int, k + 1),
                )
            } else {
                &&& ranges@.len() == ids.len()
                &&& forall|k: int| 0 <= k < ranges@.len() ==> is_plain_range(
                    #[trigger] ranges@[k],
                    ids[k],
                    geometric_cut(file_size as int, block_counts@, block_size as int, ids[k]),
                    geometric_cut(file_size as int, block_counts@, block_size as int, ids[k] + 1),
                )
            }
        }),
{
    let mut ranges: Vec<RangeSpec> = Vec::new();
    if file_size == 0 {
        return ranges;
    }
    let n: usize = block_counts.len() + 1;
    let ghost total = file_size as int;
    let ghost block = block_size as int;
    let ghost counts = block_counts@;
    let mut byte_start: u64 = 0;
    let mut i: usize = 0;
    while i < n
        invariant
            n == counts.len() + 1,
            counts == block_counts@,
            total == file_size,
            block == block_size,
            i <= n,
            byte_start == geometric_cut(total, counts, block, i as int),
            byte_start <= file_size,
            n > 1 && i >= 1 ==> geometric_cut(total, counts, block, 1) >= block,
            ranges@.len() == geometric_ids(total, counts, block, i as int).len(),
            forall|k: int| 0 <= k < ranges@.len() ==> {
                let id = geometric_ids(total, counts, block, i as int)[k];
                &&& is_plain_range(
                    #[trigger] ranges@[k],
                    id,
                    geometric_cut(total, counts, block, id),
                    geometric_cut(total, counts, block, id + 1),
                )
            },
        decreases n - i,
    {
        let byte_end: u64 = if i == block_counts.len() {
            file_size
        } else {
            let count: u64 = block_counts[i];
            assert(count * block_size <= u64::MAX * u64::MAX) by (nonlinear_arith)
                requires
                    0 <= count <= u64::MAX,
                    0 <= block_size <= u64::MAX,
            ;
            let wide: u128 = (count as u128) * (block_size as u128);
            if wide < byte_start as u128 {
                byte_start
            } else if wide > file_size as u128 {
                file_size
            } else {
                wide as u64
            }
        };
        assert(byte_end == geometric_cut(total, counts, block, i + 1));
        if i == 0 && n > 1 && byte_end < block_size {
            return build_equal_ranges(file_size, n);
        }
        if byte_end > byte_start {
            ranges.push(plain_range(i as u64, byte_start, byte_end));
        }
        byte_start = byte_end;
        i = i + 1;
    }
    ranges
}

/// `ranges` tile `total` bytes: they are not empty, the first begins at zero,
/// each begins where the one before it ends, and the last ends at `total`.
pub open spec fn tiles(ranges: Seq<RangeSpec>, total: int) -> bool {
    &&& total > 0 <==> ranges.len() > 0
    &&& ranges.len() > 0 ==> ranges[0].byte_start == 0 && ranges.last().byte_end == total
    &&& forall|k: int| 0 <= k < ranges.len() ==> (#[trigger] ranges[k]).byte_start < ranges[k].byte_end
    &&& forall|k: int|
        0 < k < ranges.len() ==> (#[trigger] ranges[k]).byte_start == ranges[k - 1].byte_end
}

/// Seed ranges tile the file.
pub proof fn lemma_seed_ranges_tile(
    table: Seq<u64>,
    start: int,
    support: int,
    total: int,
    ranges: Seq<RangeSpec>,
)
    requires
        is_fib_prefix(table),
        0 <= start < support < table.len(),
        total >= 0,
        is_seed_count(table, start, support, total, ranges.len() as int),
        forall|k: int| 0 <= k < ranges.len() ==> is_seed_range(
            table,
            start,
            total,
            ranges.len() as int,
            k,
            #[trigger] ranges[k],
        ),
    ensures
        tiles(ranges, total),
{
    assert forall|k: int| 0 <= k < ranges.len() implies (#[trigger] ranges[k]).byte_start < ranges[k].byte_end by {
        lemma_fib_step((start + k) as nat);
        assert(table[start + k] == fib_value((start + k) as nat));
        assert(table[start + k + 1] == fib_value((start + k + 1) as nat));
        if k > 0 {
            assert(table[start + k] * MB < total);
        }
    }
    assert forall|k: int| 0 < k < ranges.len() implies (#[trigger] ranges[k]).byte_start == ranges[k - 1].byte_end by {
        assert(is_seed_range(table, start, total, ranges.len() as int, k - 1, ranges[k - 1]));
    }
}

/// Equal ranges tile the file.
pub proof fn lemma_equal_ranges_tile(total: int, connections: int, ranges: Seq<RangeSpec>)
    requires
        total >= 0,
        connections > 0,
        ranges.len() == equal_lanes(total, connections),
        forall|k: int| 0 <= k < ranges.len() ==> is_plain_range(
            #[trigger] ranges[k],
            k,
            equal_cut(total, ranges.len() as int, k),
            equal_cut(total, ranges.len() as int, k + 1),
        ),
    ensures
        tiles(ranges, total),
{
    let lanes = ranges.len() as int;
    if total > 0 {
        assert(1 <= ceil_div(total, MB as int) <= total);
        assert forall|k: int| 0 <= k < lanes implies (#[trigger] ranges[k]).byte_start < ranges[k].byte_end by {
            lemma_equal_cut(total, lanes, k);
        }
        assert forall|k: int| 0 < k < lanes implies (#[trigger] ranges[k]).byte_start == ranges[k - 1].byte_end by {
            assert(is_plain_range(ranges[k - 1], k - 1, equal_cut(total, lanes, k - 1), equal_cut(total, lanes, k)));
        }
        lemma_equal_cut(total, lanes, 0);
        assert(equal_cut(total, lanes, 0) == 0);
    }
}

/// The ranges between geometric cuts follow one another without a gap.
pub proof fn lemma_geometric_ids(total: int, counts: Seq<u64>, block: int, n: int)
    requires
        0 <= n <= counts.len() + 1,
        total > 0,
    ensures
        ({
            let ids = geometric_ids(total, counts, block, n);
            &&& forall|k: int| 0 <= k < ids.len() ==> {
                &&& 0 <= #[trigger] ids[k] < n
                &&& geometric_cut(total, counts, block, ids[k]) < geometric_cut(total, counts, block, ids[k] + 1)
            }
            &&& forall|k: int| 0 < k < ids.len() ==> geometric_cut(total, counts, block, #[trigger] ids[k])
                == geometric_cut(total, counts, block, ids[k - 1] + 1)
            &&& ids.len() > 0 ==> geometric_cut(total, counts, block, ids[0]) == 0
            &&& ids.len() > 0 ==> geometric_cut(total, counts, block, ids.last() + 1) == geometric_cut(
                total,
                counts,
                block,
                n,
            )
            &&& ids.len() == 0 ==> geometric_cut(total, counts, block, n) == 0
            &&& ids.len() <= n
        }),
    decreases n,
{
    if n > 0 {
        lemma_geometric_ids(total, counts, block, n - 1);
        lemma_geometric_cut(total, counts, block, n - 1);
        lemma_geometric_cut(total, counts, block, n);
        assert(geometric_cut(total, counts, block, n) >= geometric_cut(total, counts, block, n - 1));
        let before = geometric_ids(total, counts, block, n - 1);
        let ids = geometric_ids(total, counts, block, n);
        assert forall|k: int| 0 < k < ids.len() implies geometric_cut(total, counts, block, #[trigger] ids[k])
            == geometric_cut(total, counts, block, ids[k - 1] + 1) by {
            if k < before.len() {
                assert(before[k] == ids[k]);
                assert(before[k - 1] == ids[k - 1]);
            } else {
                assert(before.last() == ids[k - 1]);
            }
        }
        assert forall|k: int| 0 <= k < ids.len() implies {
            &&& 0 <= #[trigger] ids[k] < n
            &&& geometric_cut(total, counts, block, ids[k]) < geometric_cut(total, counts, block, ids[k] + 1)
        } by {
            if k < before.len() {
                assert(before[k] == ids[k]);
            }
        }
        if before.len() > 0 {
            assert(before[0] == ids[0]);
        }
    }
}

/// Geometric ranges tile the file.
pub proof fn lemma_geometric_ranges_tile(total: int, counts: Seq<u64>, block: int, ranges: Seq<RangeSpec>)
    requires
        total > 0,
        ({
            let ids = geometric_ids(total, counts, block, counts.len() as int + 1);
            &&& ranges.len() == ids.len()
            &&& forall|k: int| 0 <= k < ranges.len() ==> is_plain_range(
                #[trigger] ranges[k],
                ids[k],
                geometric_cut(total, counts, block, ids[k]),
                geometric_cut(total, counts, block, ids[k] + 1),
            )
        }),
    ensures
        tiles(ranges, total),
{
    let n = counts.len() + 1;
    let ids = geometric_ids(total, counts, block, n as int);
    lemma_geometric_ids(total, counts, block, n as int);
    assert(geometric_cut(total, counts, block, n as int) == total);
    assert forall|k: int| 0 <= k < ranges.len() implies (#[trigger] ranges[k]).byte_start < ranges[k].byte_end by {
        assert(0 <= ids[k] < n);
    }
    assert forall|k: int| 0 < k < ranges.len() implies (#[trigger] ranges[k]).byte_start == ranges[k - 1].byte_end by {
        let _ = ranges[k - 1];
        assert(geometric_cut(total, counts, block, ids[k]) == geometric_cut(total, counts, block, ids[k - 1] + 1));
    }
}

} // verus!
