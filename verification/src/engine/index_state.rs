//! Which megabytes of the file are there, one bit for each.

use vstd::prelude::*;
use crate::units::{ceil_div, div_ceil_u64, min_int, min_u64, MB};

verus! {

/// Bytes that one bucket of eight slices stands for.
pub const INDEX_STATE_BYTES: u64 = 8388608;

/// Bit `k` of `b`.
pub open spec fn bit(b: u8, k: int) -> bool {
    (b >> (k as u8)) & 1u8 == 1u8
}

proof fn lemma_bit_set(b: u8, k: u8, j: u8)
    by (bit_vector)
    requires
        k < 8,
        j < 8,
    ensures
        ((b | (1u8 << k)) >> j) & 1u8 == 1u8 <==> ((b >> j) & 1u8 == 1u8 || j == k),
{
}

proof fn lemma_bit_mask(b: u8, m: u8, j: u8)
    by (bit_vector)
    requires
        j < 8,
    ensures
        ((b & m) >> j) & 1u8 == 1u8 <==> ((b >> j) & 1u8 == 1u8 && (m >> j) & 1u8 == 1u8),
{
}

proof fn lemma_bit_low_mask(n: u16, j: u8)
    by (bit_vector)
    requires
        n < 8,
        j < 8,
    ensures
        ((((1u16 << n) - 1) as u8) >> j) & 1u8 == 1u8 <==> j < n,
{
}

proof fn lemma_bit_const(j: u8)
    by (bit_vector)
    requires
        j < 8,
    ensures
        (0xFFu8 >> j) & 1u8 == 1u8,
        (0u8 >> j) & 1u8 == 0u8,
{
}

/// How many slices of one megabyte a file of `total` bytes has.
pub open spec fn slice_count(total: int) -> int {
    ceil_div(total, MB as int)
}

/// How many buckets of eight slices a file of `total` bytes has.
pub open spec fn bucket_total(total: int) -> int {
    ceil_div(total, INDEX_STATE_BYTES as int)
}

/// Slice `i` is marked in `buckets`.
pub open spec fn slice_marked(buckets: Seq<u8>, i: int) -> bool {
    0 <= i < 8 * buckets.len() && bit(buckets[i / 8], i % 8)
}

/// How many of the first `n` slices are marked and within the file.
pub open spec fn count_marked(buckets: Seq<u8>, slices: int, n: int) -> int
    decreases n,
{
    if n <= 0 {
        0
    } else {
        count_marked(buckets, slices, n - 1) + if slice_marked(buckets, n - 1) && n - 1 < slices {
            1int
        } else {
            0
        }
    }
}

/// The slices that the span `from..to` marks: from the one that holds `from`
/// up to the last one that ends at or before `to`, or up to the last of the
/// file where `to` reaches its end.
pub open spec fn span_marks(total: int, from: int, to: int, i: int) -> bool {
    let low = min_int(from, total);
    let high = min_int(to, total);
    low < high && low / MB as int <= i < if high >= total { slice_count(total) } else { high / MB as int }
}

/// The bits of bucket `bucket_idx` that stand for slices of the file.
pub fn valid_slice_mask(total_size: u64, bucket_idx: usize) -> (mask: u8)
    ensures
        forall|k: int| 0 <= k < 8 ==> (#[trigger] bit(mask, k) <==> bucket_idx * 8 + k < slice_count(total_size as int)),
{
    let total_slices: u64 = div_ceil_u64(total_size, MB);
    let bucket_start: u128 = (bucket_idx as u128) * 8;
    if bucket_start >= total_slices as u128 {
        assert forall|k: int| 0 <= k < 8 implies (#[trigger] bit(0u8, k) <==> false) by {
            lemma_bit_const(k as u8);
        }
        return 0;
    }
    let remaining: u64 = total_slices - bucket_start as u64;
    if remaining >= 8 {
        assert forall|k: int| 0 <= k < 8 implies #[trigger] bit(0xFFu8, k) by {
            lemma_bit_const(k as u8);
        }
        0xFF
    } else {
        let n: u16 = remaining as u16;
        assert(1 <= (1u16 << n) <= 128) by (bit_vector)
            requires
                n < 8,
        ;
        let mask: u8 = ((1u16 << n) - 1) as u8;
        assert forall|k: int| 0 <= k < 8 implies (#[trigger] bit(mask, k) <==> k < remaining) by {
            lemma_bit_low_mask(n, k as u8);
        }
        mask
    }
}

/// The completed slices of a file.
#[derive(Debug, Clone)]
pub struct IndexStateMap {
    pub total_size: u64,
    pub buckets: Vec<u8>,
}

impl IndexStateMap {
    /// There is a bit for every slice of the file.
    pub open spec fn wf(&self) -> bool {
        self.buckets@.len() == bucket_total(self.total_size as int)
    }

    /// How many slices of the file are marked.
    pub open spec fn completed(&self) -> int {
        count_marked(self.buckets@, slice_count(self.total_size as int), 8 * self.buckets@.len() as int)
    }

    pub open spec fn marked(&self, i: int) -> bool {
        slice_marked(self.buckets@, i)
    }

    /// A map with nothing marked.
    pub fn new(total_size: u64) -> (r: IndexStateMap)
        requires
            bucket_total(total_size as int) <= usize::MAX,
        ensures
            r.wf(),
            r.total_size == total_size,
            forall|i: int| 0 <= i < r.buckets@.len() ==> #[trigger] r.buckets@[i] == 0,
            forall|i: int| !#[trigger] r.marked(i),
    {
        let r = IndexStateMap::from_snapshot(total_size, Vec::new());
        assert forall|i: int| !#[trigger] r.marked(i) by {
            lemma_bit_const((i % 8) as u8);
        }
        r
    }

    /// The map whose buckets are `bits`, cut or filled up with zeros to the
    /// size of the file.
    pub fn from_snapshot(total_size: u64, bits: Vec<u8>) -> (r: IndexStateMap)
        requires
            bucket_total(total_size as int) <= usize::MAX,
        ensures
            r.wf(),
            r.total_size == total_size,
            forall|i: int| 0 <= i < r.buckets@.len() ==> #[trigger] r.buckets@[i] == if i < bits@.len() {
                bits@[i]
            } else {
                0
            },
    {
        let bucket_count: usize = div_ceil_u64(total_size, INDEX_STATE_BYTES) as usize;
        let mut buckets: Vec<u8> = Vec::new();
        let mut idx: usize = 0;
        while idx < bucket_count
            invariant
                idx <= bucket_count,
                buckets@.len() == idx,
                forall|i: int| 0 <= i < idx ==> #[trigger] buckets@[i] == if i < bits@.len() {
                    bits@[i]
                } else {
                    0
                },
            decreases bucket_count - idx,
        {
            let value: u8 = if idx < bits.len() {
                bits[idx]
            } else {
                0
            };
            buckets.push(value);
            idx = idx + 1;
        }
        IndexStateMap { total_size, buckets }
    }

    pub fn snapshot_bits(&self) -> (bits: Vec<u8>)
        ensures
            bits@ == self.buckets@,
    {
        self.buckets.clone()
    }

    pub fn bucket_count(&self) -> (r: usize)
        ensures
            r == self.buckets@.len(),
    {
        self.buckets.len()
    }

    pub fn storage_bytes(&self) -> (r: usize)
        ensures
            r == self.buckets@.len(),
    {
        self.buckets.len()
    }

    /// How many slices of the file are marked.
    pub fn completed_slices(&self) -> (r: u64)
        requires
            self.wf(),
        ensures
            r == self.completed(),
    {
        let ghost slices = slice_count(self.total_size as int);
        let mut count: u64 = 0;
        let mut idx: usize = 0;
        while idx < self.buckets.len()
            invariant
                self.wf(),
                slices == slice_count(self.total_size as int),
                idx <= self.buckets@.len(),
                count == count_marked(self.buckets@, slices, 8 * idx),
                count <= 8 * idx,
            decreases self.buckets@.len() - idx,
        {
            let raw: u8 = self.buckets[idx];
            let mask: u8 = valid_slice_mask(self.total_size, idx);
            let bits: u8 = raw & mask;
            let mut k: u8 = 0;
            while k < 8
                invariant
                    self.wf(),
                    k <= 8,
                    idx < self.buckets@.len(),
                    raw == self.buckets@[idx as int],
                    bits == raw & mask,
                    forall|j: int| 0 <= j < 8 ==> (#[trigger] bit(mask, j) <==> idx * 8 + j < slices),
                    count == count_marked(self.buckets@, slices, 8 * idx + k),
                    count <= 8 * idx + k,
                decreases 8 - k,
            {
                assert(bit(bits, k as int) <==> bit(raw, k as int) && bit(mask, k as int)) by {
                    lemma_bit_mask(raw, mask, k);
                }
                assert((8 * idx + k) / 8 == idx && (8 * idx + k) % 8 == k);
                assert(slice_marked(self.buckets@, 8 * idx + k) <==> bit(raw, k as int));
                if (bits >> k) & 1u8 == 1u8 {
                    count = count + 1;
                }
                k = k + 1;
            }
            idx = idx + 1;
        }
        count
    }

    /// Marks the slices that `from_byte..to_byte` completes.
    pub fn mark_completed_span(&mut self, from_byte: u64, to_byte: u64)
        requires
            old(self).wf(),
        ensures
            final(self).wf(),
            final(self).total_size == old(self).total_size,
            forall|i: int| #[trigger] final(self).marked(i) <==> old(self).marked(i) || span_marks(
                old(self).total_size as int,
                from_byte as int,
                to_byte as int,
                i,
            ),
    {
        let total: u64 = self.total_size;
        let clamped_from: u64 = min_u64(from_byte, total);
        let clamped_to: u64 = min_u64(to_byte, total);
        if clamped_to <= clamped_from {
            return;
        }
        let start_slice: u64 = clamped_from / MB;
        let end_slice: u64 = if clamped_to >= total {
            div_ceil_u64(total, MB)
        } else {
            clamped_to / MB
        };
        let mut slice: u64 = start_slice;
        while slice < end_slice
            invariant
                self.wf(),
                total == self.total_size,
                total == old(self).total_size,
                old(self).wf(),
                start_slice <= slice,
                slice <= end_slice || slice == start_slice,
                end_slice <= slice_count(total as int),
                forall|i: int| #[trigger] self.marked(i) <==> old(self).marked(i) || start_slice <= i < slice,
            decreases end_slice - slice,
        {
            let len: usize = self.buckets.len();
            assert(slice / 8 < len);
            let bucket_idx: usize = (slice / 8) as usize;
            let bit_idx: u8 = (slice % 8) as u8;
            let before: u8 = self.buckets[bucket_idx];
            let after: u8 = before | (1u8 << bit_idx);
            let ghost prev = *self;
            self.buckets.set(bucket_idx, after);
            assert forall|i: int| #[trigger] self.marked(i) <==> old(self).marked(i) || start_slice <= i < slice + 1 by {
                assert(prev.marked(i) <==> old(self).marked(i) || start_slice <= i < slice);
                if 0 <= i < 8 * prev.buckets@.len() {
                    lemma_bit_set(before, bit_idx, (i % 8) as u8);
                    assert(i == slice <==> i / 8 == bucket_idx && i % 8 == bit_idx);
                    assert(self.buckets@[i / 8] == if i / 8 == bucket_idx { after } else { prev.buckets@[i / 8] });
                }
            }
            slice = slice + 1;
        }
    }
}

proof fn lemma_count_bound(buckets: Seq<u8>, slices: int, n: int)
    requires
        n >= 0,
        slices >= 0,
    ensures
        0 <= count_marked(buckets, slices, n) <= min_int(n, slices),
        (forall|i: int| 0 <= i < min_int(n, slices) ==> #[trigger] slice_marked(buckets, i)) ==> count_marked(
            buckets,
            slices,
            n,
        ) == min_int(n, slices),
    decreases n,
{
    if n > 0 {
        lemma_count_bound(buckets, slices, n - 1);
    }
}

proof fn lemma_count_monotone(before: Seq<u8>, after: Seq<u8>, slices: int, n: int)
    requires
        forall|i: int| #[trigger] slice_marked(before, i) ==> slice_marked(after, i),
    ensures
        count_marked(before, slices, n) <= count_marked(after, slices, n),
    decreases n,
{
    if n > 0 {
        lemma_count_monotone(before, after, slices, n - 1);
    }
}

/// No more slices are complete than the file has.
pub proof fn law_completed_within_file(map: IndexStateMap)
    requires
        map.wf(),
    ensures
        map.completed() <= slice_count(map.total_size as int),
{
    lemma_count_bound(map.buckets@, slice_count(map.total_size as int), 8 * map.buckets@.len() as int);
}

/// Marking a span never takes a completed slice back.
pub proof fn law_marking_is_monotone(before: IndexStateMap, after: IndexStateMap, from: int, to: int)
    requires
        before.wf(),
        after.wf(),
        before.total_size == after.total_size,
        forall|i: int| #[trigger] after.marked(i) <==> before.marked(i) || span_marks(
            before.total_size as int,
            from,
            to,
            i,
        ),
    ensures
        before.completed() <= after.completed(),
{
    assert forall|i: int| #[trigger] slice_marked(before.buckets@, i) implies slice_marked(after.buckets@, i) by {
        assert(before.marked(i));
        assert(after.marked(i));
    }
    lemma_count_monotone(
        before.buckets@,
        after.buckets@,
        slice_count(before.total_size as int),
        8 * before.buckets@.len() as int,
    );
}

/// Marking the whole file completes every slice of it.
pub proof fn law_whole_file_completes(before: IndexStateMap, after: IndexStateMap)
    requires
        before.wf(),
        after.wf(),
        before.total_size == after.total_size,
        forall|i: int| #[trigger] after.marked(i) <==> before.marked(i) || span_marks(
            before.total_size as int,
            0,
            before.total_size as int,
            i,
        ),
    ensures
        after.completed() == slice_count(after.total_size as int),
{
    let slices = slice_count(after.total_size as int);
    assert(8 * after.buckets@.len() >= slices);
    assert forall|i: int| 0 <= i < slices implies #[trigger] slice_marked(after.buckets@, i) by {
        assert(after.marked(i));
    }
    lemma_count_bound(after.buckets@, slices, 8 * after.buckets@.len() as int);
}

} // verus!
