//! The middle value of a list of speeds.

use vstd::prelude::*;
use vstd::relations::{sorted_by, total_ordering};
use vstd::seq_lib::{lemma_sorted_unique, to_multiset_build, to_multiset_insert};

verus! {

/// The order of the integers.
pub open spec fn ascending() -> spec_fn(u64, u64) -> bool {
    |a: u64, b: u64| a <= b
}

/// The value in the middle of the sorted `values`, the upper one of the two
/// where their number is even; zero where there are none.
pub open spec fn median(values: Seq<u64>) -> u64 {
    if values.len() == 0 {
        0
    } else {
        values.sort_by(ascending())[values.len() as int / 2]
    }
}

/// `values` in ascending order.
pub fn sorted_u64(values: &Vec<u64>) -> (out: Vec<u64>)
    ensures
        out@ == values@.sort_by(ascending()),
{
    let mut out: Vec<u64> = Vec::new();
    let mut i: usize = 0;
    assert(values@.take(0) =~= Seq::<u64>::empty());
    while i < values.len()
        invariant
            i <= values.len(),
            out@.len() == i,
            sorted_by(out@, ascending()),
            out@.to_multiset() == values@.take(i as int).to_multiset(),
        decreases values.len() - i,
    {
        let value: u64 = values[i];
        let mut p: usize = out.len();
        while p > 0 && out[p - 1] > value
            invariant
                p <= out@.len(),
                sorted_by(out@, ascending()),
                forall|k: int| p <= k < out@.len() ==> #[trigger] out@[k] > value,
            decreases p,
        {
            p = p - 1;
        }
        let ghost before = out@;
        out.insert(p, value);
        proof {
            to_multiset_insert(before, p as int, value);
            to_multiset_build(values@.take(i as int), value);
            assert(values@.take(i + 1) =~= values@.take(i as int).push(value));
            assert forall|a: int, b: int| 0 <= a < b < out@.len() implies #[trigger] ascending()(out@[a], out@[b]) by {
                if p > 0 {
                    assert(before[p - 1] <= value);
                }
                if a < p - 1 {
                    assert(ascending()(before[a], before[p - 1]));
                }
                if b < p {
                    assert(ascending()(before[a], before[b]));
                } else if a > p {
                    assert(ascending()(before[a - 1], before[b - 1]));
                }
            }
        }
        i = i + 1;
    }
    proof {
        assert(values@.take(values.len() as int) =~= values@);
        assert(total_ordering(ascending()));
        values@.lemma_sort_by_ensures(ascending());
        lemma_sorted_unique(out@, values@.sort_by(ascending()), ascending());
    }
    out
}

pub fn median_u64(values: &Vec<u64>) -> (r: u64)
    ensures
        r == median(values@),
{
    if values.len() == 0 {
        return 0;
    }
    let sorted: Vec<u64> = sorted_u64(values);
    proof {
        values@.lemma_sort_by_ensures(ascending());
        vstd::seq_lib::to_multiset_len(values@);
        vstd::seq_lib::to_multiset_len(sorted@);
    }
    sorted[values.len() / 2]
}

/// How many of the values satisfy `p`.
pub open spec fn how_many(s: Seq<u64>, p: spec_fn(u64) -> bool) -> int
    decreases s.len(),
{
    if s.len() == 0 {
        0
    } else {
        how_many(s.drop_last(), p) + if p(s.last()) {
            1int
        } else {
            0
        }
    }
}

/// `m` is in the middle of the values: it is one of them, at most half of them
/// are less, and fewer than half are more.
pub open spec fn is_middle(s: Seq<u64>, m: u64) -> bool {
    &&& s.contains(m)
    &&& 2 * how_many(s, |x: u64| x < m) <= s.len()
    &&& 2 * how_many(s, |x: u64| x > m) < s.len()
}

proof fn lemma_how_many_bounds(s: Seq<u64>, p: spec_fn(u64) -> bool, c: int)
    requires
        0 <= c <= s.len(),
    ensures
        0 <= how_many(s, p) <= s.len(),
        (forall|k: int| c <= k < s.len() ==> !p(#[trigger] s[k])) ==> how_many(s, p) <= c,
        (forall|k: int| 0 <= k < c ==> !p(#[trigger] s[k])) ==> how_many(s, p) <= s.len() - c,
    decreases s.len(),
{
    if s.len() > 0 {
        let front = s.drop_last();
        let d = if c == s.len() {
            c - 1
        } else {
            c
        };
        lemma_how_many_bounds(front, p, d);
        if forall|k: int| c <= k < s.len() ==> !p(#[trigger] s[k]) {
            assert forall|k: int| d <= k < front.len() implies !p(#[trigger] front[k]) by {
                assert(front[k] == s[k]);
            }
            if c < s.len() {
                assert(!p(s[s.len() - 1]));
            }
        }
        if forall|k: int| 0 <= k < c ==> !p(#[trigger] s[k]) {
            assert forall|k: int| 0 <= k < d implies !p(#[trigger] front[k]) by {
                assert(front[k] == s[k]);
            }
            if c == s.len() {
                assert(!p(s[s.len() - 1]));
            }
        }
    }
}

proof fn lemma_how_many_multiset(s: Seq<u64>, p: spec_fn(u64) -> bool)
    ensures
        how_many(s, p) == s.to_multiset().filter(p).len(),
    decreases s.len(),
{
    broadcast use vstd::multiset::group_multiset_axioms;

    if s.len() == 0 {
        vstd::seq_lib::to_multiset_len(s);
        assert(s.to_multiset().filter(p) =~= vstd::multiset::Multiset::empty());
    } else {
        let front = s.drop_last();
        let x = s.last();
        lemma_how_many_multiset(front, p);
        assert(s =~= front.push(x));
        to_multiset_build(front, x);
        if p(x) {
            assert(s.to_multiset().filter(p) =~= front.to_multiset().filter(p).insert(x));
        } else {
            assert(s.to_multiset().filter(p) =~= front.to_multiset().filter(p));
        }
    }
}

/// What is at most `m` and what is more make up all the values.
proof fn lemma_how_many_parts(s: Seq<u64>, m: u64, n: u64)
    requires
        m < n,
    ensures
        how_many(s, |x: u64| x < n) + how_many(s, |x: u64| x > m) >= s.len(),
    decreases s.len(),
{
    if s.len() > 0 {
        lemma_how_many_parts(s.drop_last(), m, n);
    }
}

/// There is one value in the middle at most.
pub proof fn lemma_middle_unique(s: Seq<u64>, a: u64, b: u64)
    requires
        is_middle(s, a),
        is_middle(s, b),
    ensures
        a == b,
{
    if a < b {
        lemma_how_many_parts(s, a, b);
    } else if b < a {
        lemma_how_many_parts(s, b, a);
    }
}

/// The median is in the middle of the values, in whatever order they come.
pub proof fn law_median_is_in_the_middle(values: &Vec<u64>, r: u64)
    requires
        call_ensures(median_u64, (values,), r),
    ensures
        values@.len() > 0 ==> is_middle(values@, r),
        values@.len() == 0 ==> r == 0,
{
    lemma_median_middle(values@);
}

pub proof fn lemma_median_middle(v: Seq<u64>)
    ensures
        v.len() > 0 ==> is_middle(v, median(v)),
{
    if v.len() > 0 {
        assert(total_ordering(ascending()));
        v.lemma_sort_by_ensures(ascending());
        let w = v.sort_by(ascending());
        vstd::seq_lib::to_multiset_len(v);
        vstd::seq_lib::to_multiset_len(w);
        let h = v.len() as int / 2;
        let m = w[h];
        let below = |x: u64| x < m;
        let above = |x: u64| x > m;
        lemma_how_many_multiset(v, below);
        lemma_how_many_multiset(w, below);
        lemma_how_many_multiset(v, above);
        lemma_how_many_multiset(w, above);
        assert forall|k: int| h <= k < w.len() implies !below(#[trigger] w[k]) by {
            if h < k {
                assert(ascending()(w[h], w[k]));
            }
        }
        assert forall|k: int| 0 <= k < h + 1 implies !above(#[trigger] w[k]) by {
            if k < h {
                assert(ascending()(w[k], w[h]));
            }
        }
        lemma_how_many_bounds(w, below, h);
        lemma_how_many_bounds(w, above, h + 1);
        assert(w.contains(m));
        if !v.contains(m) {
            assert(!w.contains(m));
        }
    }
}

} // verus!
