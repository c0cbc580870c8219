//! What holds when work changes hands.

use vstd::arithmetic::div_mod::{lemma_fundamental_div_mod, lemma_mod_multiples_vanish, lemma_small_mod};
use vstd::prelude::*;
use crate::engine::coordinator::{
    around, divisible, is_best, is_first, lagging, none_from, resumable, speed_samples, waiting, BorrowKind,
    CoordState, Coordinator,
};
use crate::engine::median::{is_middle, lemma_median_middle, lemma_middle_unique, median};
use crate::engine::ranges::{total_done, ActiveRange};

verus! {

/// Bytes that are missing of `r`.
pub open spec fn missing(r: ActiveRange) -> int {
    if r.cursor < r.end {
        r.end - r.cursor
    } else {
        0
    }
}

/// Some connection other than `connection_id` is at work on `r`.
pub open spec fn at_work(r: ActiveRange, connection_id: u32) -> bool {
    r.assigned_to != connection_id && r.assigned_to != u32::MAX && r.status == 1
}

/// The speeds that are known of the ranges that others are at work on and of
/// which `limit` bytes or more are missing.
pub open spec fn known_speeds(s: Seq<ActiveRange>, connection_id: u32, limit: int) -> Seq<u64> {
    s.filter(
        |r: ActiveRange| at_work(r, connection_id) && missing(r) >= limit && r.recent_speed_bps > 0,
    ).map_values(|r: ActiveRange| r.recent_speed_bps)
}

proof fn lemma_speeds(s: Seq<ActiveRange>, connection_id: u32, limit: int)
    ensures
        speed_samples(s, connection_id, limit) == known_speeds(s, connection_id, limit),
    decreases s.len(),
{
    reveal(Seq::filter);
    if s.len() > 0 {
        lemma_speeds(s.drop_last(), connection_id, limit);
    }
    assert(speed_samples(s, connection_id, limit) =~= known_speeds(s, connection_id, limit));
}

/// Going round from `cursor`, every position is passed.
proof fn lemma_passed(cursor: int, j: int, n: int) -> (o: int)
    requires
        0 <= cursor,
        0 <= j < n,
    ensures
        0 <= o < n,
        around(cursor, o, n) == j,
{
    let a = cursor % n;
    let q = cursor / n;
    lemma_fundamental_div_mod(cursor, n);
    lemma_small_mod(j as nat, n as nat);
    let o = if j >= a {
        j - a
    } else {
        j - a + n
    };
    if j >= a {
        lemma_mod_multiples_vanish(q, j, n);
        assert(cursor + o == n * q + j);
    } else {
        lemma_mod_multiples_vanish(q + 1, j, n);
        assert(cursor + o == n * (q + 1) + j) by (nonlinear_arith)
            requires
                cursor == n * q + a,
                o == j - a + n,
        ;
    }
    o
}

/// What a part is taken of: a straggler runs at no more than 60 per cent of the
/// speed in the middle; where there is one with three times the limit
/// missing, no other range is cut; of those that come into question the one
/// with the most bytes missing is cut; and none is cut only where no range of
/// another connection has more than twice the limit missing. Speeds are taken
/// to be such that a hundredfold of them fits its type.
pub proof fn law_stragglers_are_helped_first(
    c: &Coordinator,
    connection_id: u32,
    limit: u64,
    r: Option<(usize, BorrowKind)>,
)
    requires
        c@.schedulable(),
        call_ensures(Coordinator::effective_borrow_limit_bytes, (c,), limit),
        call_ensures(Coordinator::select_borrow_candidate, (c, connection_id), r),
        limit * 3 <= u64::MAX,
        forall|i: int| 0 <= i < c@.ranges.len() ==> (#[trigger] c@.ranges[i]).recent_speed_bps * 100 <= u64::MAX,
    ensures
        ({
            let s = c@.ranges;
            let speeds = known_speeds(s, connection_id, limit as int);
            match r {
                Some((i, kind)) => {
                    let donor = s[i as int];
                    &&& i < s.len()
                    &&& at_work(donor, connection_id)
                    &&& missing(donor) > 2 * limit
                    &&& kind == BorrowKind::Straggler ==> {
                        &&& missing(donor) >= 3 * limit
                        &&& donor.recent_speed_bps > 0
                        &&& exists|m: u64| #[trigger] is_middle(speeds, m)
                        &&& forall|m: u64| #[trigger]
                            is_middle(speeds, m) ==> donor.recent_speed_bps * 100 <= m * 60
                    }
                    &&& kind != BorrowKind::Straggler ==> forall|m: u64, j: int|
                        #![trigger is_middle(speeds, m), s[j]]
                        is_middle(speeds, m) && 0 <= j < s.len() && at_work(s[j], connection_id) && missing(s[j]) >= 3
                            * limit && missing(s[j]) > 2 * limit && s[j].recent_speed_bps > 0
                            ==> s[j].recent_speed_bps * 100 > m * 60
                    &&& forall|j: int|
                        0 <= j < s.len() && at_work(#[trigger] s[j], connection_id) && missing(s[j]) > 2 * limit && (
                        kind == BorrowKind::Straggler ==> missing(s[j]) >= 3 * limit && 0 < s[j].recent_speed_bps
                            <= donor.recent_speed_bps) ==> missing(s[j]) <= missing(donor)
                },
                None => forall|j: int|
                    0 <= j < s.len() && at_work(#[trigger] s[j], connection_id) ==> missing(s[j]) <= 2 * limit,
            }
        }),
{
    let s = c@.ranges;
    let n = s.len() as int;
    let cursor = c@.borrow_cursor;
    let l = limit as int;
    let speeds = known_speeds(s, connection_id, l);
    lemma_speeds(s, connection_id, l);
    let m = median(speeds);
    lemma_median_middle(speeds);
    assert forall|k: u64| #[trigger] is_middle(speeds, k) implies k == m by {
        lemma_median_middle(speeds);
        lemma_middle_unique(speeds, k, m);
    }
    let lag = lagging(connection_id, l, m);
    let div = divisible(connection_id, l);
    if speeds.len() > 0 {
        reveal(Seq::filter);
        let i = choose|i: int| 0 <= i < speeds.len() && speeds[i] == m;
        lemma_known_bound(s, connection_id, l, i);
    }
    match r {
        Some((i, kind)) => {
            let p = if kind == BorrowKind::Straggler {
                lag
            } else {
                div
            };
            let o = choose|o: int| #[trigger]
                is_best(s, cursor, p, o) && i == around(cursor, o, n);
            assert(is_best(s, cursor, p, o));
            assert forall|j: int|
                0 <= j < n && at_work(#[trigger] s[j], connection_id) && missing(s[j]) > 2 * limit && (kind
                    == BorrowKind::Straggler ==> missing(s[j]) >= 3 * limit && 0 < s[j].recent_speed_bps
                    <= s[i as int].recent_speed_bps) implies missing(s[j]) <= missing(s[i as int]) by {
                let q = lemma_passed(cursor, j, n);
                assert(p(s[around(cursor, q, n)]));
            }
            if kind != BorrowKind::Straggler {
                assert forall|k: u64, j: int|
                    #![trigger is_middle(speeds, k), s[j]]
                    is_middle(speeds, k) && 0 <= j < n && at_work(s[j], connection_id) && missing(s[j]) >= 3 * limit
                        && missing(s[j]) > 2 * limit && s[j].recent_speed_bps > 0 implies s[j].recent_speed_bps * 100 > k
                    * 60 by {
                    let q = lemma_passed(cursor, j, n);
                    assert(!lag(s[around(cursor, q, n)]));
                }
            }
        },
        None => {
            assert forall|j: int| 0 <= j < n && at_work(#[trigger] s[j], connection_id) implies missing(s[j]) <= 2
                * limit by {
                let q = lemma_passed(cursor, j, n);
                assert(!div(s[around(cursor, q, n)]));
            }
        },
    }
}

proof fn lemma_known_bound(s: Seq<ActiveRange>, connection_id: u32, limit: int, i: int)
    requires
        0 <= i < known_speeds(s, connection_id, limit).len(),
        forall|k: int| 0 <= k < s.len() ==> (#[trigger] s[k]).recent_speed_bps * 100 <= u64::MAX,
    ensures
        0 < known_speeds(s, connection_id, limit)[i],
        known_speeds(s, connection_id, limit)[i] * 100 <= u64::MAX,
    decreases s.len(),
{
    reveal(Seq::filter);
    if s.len() > 0 {
        let front = s.drop_last();
        assert forall|k: int| 0 <= k < front.len() implies (#[trigger] front[k]).recent_speed_bps * 100 <= u64::MAX by {
            assert(front[k] == s[k]);
        }
        if i < known_speeds(front, connection_id, limit).len() {
            lemma_known_bound(front, connection_id, limit, i);
        }
    }
}

/// What cutting a range in two comes to: the first part stays with its
/// connection, the second goes to the one that asked, and together they are
/// the range. The cut falls on a megabyte; more than the limit is left to the
/// donor, and no less than the limit is taken. A straggler or the tail is cut in
/// the middle; else between 61 and 62 per cent are taken; what the cut on a
/// megabyte adds is less than one.
pub proof fn law_cut_keeps_both_parts(
    c: &mut Coordinator,
    idx: usize,
    connection_id: u32,
    kind: BorrowKind,
    limit: u64,
    work: Option<usize>,
)
    requires
        old(c)@.schedulable(),
        idx < old(c)@.ranges.len(),
        call_ensures(Coordinator::effective_borrow_limit_bytes, (&*old(c),), limit),
        call_ensures(Coordinator::split_active_range, (c, idx, connection_id, kind), work),
        limit * 2 <= u64::MAX,
    ensures
        ({
            let before = old(c)@.ranges;
            let after = final(c)@.ranges;
            let r = before[idx as int];
            match work {
                Some(w) => {
                    let donor = after[idx as int];
                    let taken = after[w as int];
                    let size = taken.end - taken.byte_start;
                    let share = if kind == BorrowKind::Standard {
                        missing(r) * 633 / 1024
                    } else {
                        missing(r) / 2
                    };
                    &&& w == before.len()
                    &&& after.len() == before.len() + 1
                    &&& forall|j: int| 0 <= j < before.len() && j != idx ==> #[trigger] after[j] == before[j]
                    &&& donor == (ActiveRange { end: taken.byte_start, ..r })
                    &&& taken.end == r.end
                    &&& taken.cursor == taken.byte_start
                    &&& taken.assigned_to == connection_id
                    &&& taken.status == 1
                    &&& taken.parent_range_id == Some(r.id)
                    &&& taken.id == old(c)@.next_range_id
                    &&& final(c)@.next_range_id == old(c)@.next_range_id + 1
                    &&& taken.byte_start % 1048576 == 0
                    &&& taken.byte_start - r.cursor > limit
                    &&& size >= limit
                    &&& share <= size < share + 1048576
                    &&& final(c)@.borrow_cursor == idx + 1
                },
                None => final(c)@ == old(c)@,
            }
        }),
        missing(old(c)@.ranges[idx as int]) >= 2 * limit + 2097152 && kind != BorrowKind::Standard ==> work is Some,
{
    let r = old(c)@.ranges[idx as int];
    let rem = missing(r);
    assert(rem * 633 / 1024 <= rem) by (nonlinear_arith)
        requires
            rem >= 0,
    ;
}

/// The least that changes hands: a megabyte once 95 per cent of the file are
/// there, else what was set or what was measured, whichever is more.
pub proof fn law_limit_falls_at_the_end(c: &Coordinator, limit: u64, downloaded: u64, tail: bool)
    requires
        c@.schedulable(),
        c@.total * 100 <= u64::MAX,
        downloaded <= c@.total,
        downloaded == total_done(c@.ranges) || (downloaded == c@.total && total_done(c@.ranges) >= c@.total),
        call_ensures(Coordinator::effective_borrow_limit_bytes, (c,), limit),
        call_ensures(Coordinator::is_tail_phase, (c,), tail),
    ensures
        tail == (c@.total > 0 && downloaded * 100 >= c@.total * 95),
        limit == if tail {
            1048576
        } else if c@.borrow_limit >= c@.steal_floor {
            c@.borrow_limit
        } else {
            c@.steal_floor
        },
{
}

/// What a connection is given: the first range from where the last one was
/// found that nobody has had; else the first that was given back with bytes
/// missing; and a part of another connection's range only where there is none
/// of either. A range that is given is given as it stands.
pub proof fn law_work_comes_in_order(c: &mut Coordinator, connection_id: u32, work: Option<usize>)
    requires
        old(c)@.schedulable(),
        call_ensures(Coordinator::get_work, (c, connection_id), work),
    ensures
        ({
            let s = old(c)@.ranges;
            let after = final(c)@.ranges;
            let from = old(c)@.next_unassigned;
            &&& forall|j: int|
                from <= j < s.len() && (#[trigger] s[j]).assigned_to == u32::MAX ==> (work matches Some(w) && from <= w
                    <= j && s[w as int].assigned_to == u32::MAX)
            &&& (forall|j: int| from <= j < s.len() ==> (#[trigger] s[j]).assigned_to != u32::MAX) ==> forall|j: int|
                0 <= j < s.len() && (#[trigger] s[j]).assigned_to == u32::MAX && s[j].status == 0 && s[j].cursor
                    < s[j].end ==> (work matches Some(w) && w <= j && s[w as int].assigned_to == u32::MAX
                    && s[w as int].status == 0 && s[w as int].cursor < s[w as int].end)
            &&& work matches Some(w) ==> w < s.len() ==> {
                &&& s[w as int].assigned_to == u32::MAX
                &&& after == s.update(
                    w as int,
                    ActiveRange { assigned_to: connection_id, status: 1, ..s[w as int] },
                )
            }
            &&& work matches Some(w) ==> w >= s.len() ==> {
                &&& w == s.len()
                &&& after.len() == s.len() + 1
                &&& after[w as int].assigned_to == connection_id
                &&& after[w as int].status == 1
                &&& after[w as int].cursor == after[w as int].byte_start
                &&& after[w as int].cursor <= after[w as int].end
                &&& exists|i: int|
                    0 <= i < s.len() && at_work(#[trigger] s[i], connection_id) && s[i].cursor < after[w as int].byte_start
                        && s[i].end == after[w as int].end && after[i].end == after[w as int].byte_start
            }
            &&& work is None ==> after == s
        }),
{
    let s = old(c)@;
    let n = s.ranges.len() as int;
    let from = s.next_unassigned;
    assert(old(c).dl_ranges.len() == n);
    if !none_from(s.ranges, from, waiting()) {
        let i = choose|i: int| #[trigger] is_first(s.ranges, from, waiting(), i);
        assert(is_first(s.ranges, from, waiting(), i));
    } else if !none_from(s.ranges, 0, resumable()) {
        let i = choose|i: int| #[trigger] is_first(s.ranges, 0, resumable(), i);
        assert(is_first(s.ranges, 0, resumable(), i));
    } else {
        let t = CoordState {
            next_unassigned: if from > n { from } else { n },
            ..s
        };
        assert(t.borrow_outcome(connection_id, final(c)@, work));
        if !t.selects_none(connection_id) {
            let (i, kind) = choose|i: int, kind: BorrowKind| #[trigger] t.selects(connection_id, i, kind);
            assert(t.selects(connection_id, i, kind));
            let m = median(speed_samples(t.ranges, connection_id, t.limit()));
            let p = if kind == BorrowKind::Straggler {
                lagging(connection_id, t.limit(), m)
            } else {
                divisible(connection_id, t.limit())
            };
            let o = choose|o: int| #[trigger]
                is_best(t.ranges, t.borrow_cursor, p, o) && i == around(t.borrow_cursor, o, n);
            assert(is_best(t.ranges, t.borrow_cursor, p, o));
            assert(at_work(s.ranges[i], connection_id));
        }
    }
    assert forall|j: int| from <= j < n && (#[trigger] s.ranges[j]).assigned_to == u32::MAX implies waiting()(
        s.ranges[j],
    ) by {}
    assert forall|j: int|
        0 <= j < n && (#[trigger] s.ranges[j]).assigned_to == u32::MAX && s.ranges[j].status == 0 && s.ranges[j].cursor
            < s.ranges[j].end implies resumable()(s.ranges[j]) by {}
}

} // verus!
