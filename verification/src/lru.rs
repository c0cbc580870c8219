//! A table by name that forgets what was not used for longest.

use vstd::prelude::*;
use crate::text::same;
use crate::units::{min_int, saturated};

verus! {

/// One entry of the table.
#[derive(Debug, Clone)]
pub struct LruEntry<V> {
    pub key: String,
    pub value: V,
    pub last_used_tick: u64,
}

/// Values by name, each with the tick at which it was last used.
#[derive(Debug, Clone)]
pub struct LruTable<V> {
    pub entries: Vec<LruEntry<V>>,
    pub usage_tick: u64,
}

/// `k` names entry `i`.
pub open spec fn names<V>(entries: Seq<LruEntry<V>>, k: Seq<char>, i: int) -> bool {
    0 <= i < entries.len() && entries[i].key@ == k
}

/// The position of the entry that `k` names.
pub open spec fn position<V>(entries: Seq<LruEntry<V>>, k: Seq<char>) -> int {
    choose|i: int| names(entries, k, i)
}

/// Every name occurs once.
pub open spec fn distinct<V>(entries: Seq<LruEntry<V>>) -> bool {
    forall|i: int, j: int|
        0 <= i < j < entries.len() ==> (#[trigger] entries[i]).key@ != (#[trigger] entries[j]).key@
}

/// The values and ticks by name.
pub open spec fn table_of<V>(entries: Seq<LruEntry<V>>) -> Map<Seq<char>, (V, u64)> {
    Map::new(
        |k: Seq<char>| exists|i: int| names(entries, k, i),
        |k: Seq<char>| (entries[position(entries, k)].value, entries[position(entries, k)].last_used_tick),
    )
}

/// `after` is what remains of `before` when all but `capacity` entries are
/// dropped: nothing that stays was used earlier than something that goes.
pub open spec fn is_pruned<V>(
    before: Map<Seq<char>, (V, u64)>,
    after: Map<Seq<char>, (V, u64)>,
    capacity: int,
) -> bool {
    &&& after.dom().finite()
    &&& after.dom().len() == min_int(before.dom().len() as int, capacity)
    &&& forall|k: Seq<char>| #[trigger] after.dom().contains(k) ==> before.dom().contains(k) && after[k] == before[k]
    &&& forall|k: Seq<char>, g: Seq<char>|
        #![trigger after.dom().contains(k), before.dom().contains(g)]
        after.dom().contains(k) && before.dom().contains(g) && !after.dom().contains(g) ==> before[g].1 <= before[k].1
}

/// An entry is found where it stands.
pub proof fn lemma_position<V>(entries: Seq<LruEntry<V>>, i: int)
    requires
        distinct(entries),
        0 <= i < entries.len(),
    ensures
        position(entries, entries[i].key@) == i,
        table_of(entries).dom().contains(entries[i].key@),
        table_of(entries)[entries[i].key@] == (entries[i].value, entries[i].last_used_tick),
{
    assert(names(entries, entries[i].key@, i));
    let p = position(entries, entries[i].key@);
    assert(names(entries, entries[i].key@, p));
    if p < i {
        assert(entries[p].key@ != entries[i].key@);
    } else if i < p {
        assert(entries[i].key@ != entries[p].key@);
    }
}

/// A table is as large as its list of entries is long.
pub proof fn lemma_table_len<V>(entries: Seq<LruEntry<V>>)
    requires
        distinct(entries),
    ensures
        table_of(entries).dom().finite(),
        table_of(entries).dom().len() == entries.len(),
    decreases entries.len(),
{
    if entries.len() == 0 {
        assert(table_of(entries).dom() =~= Set::empty());
    } else {
        let rest = entries.drop_last();
        let k = entries.last().key@;
        assert forall|i: int, j: int| 0 <= i < j < rest.len() implies (#[trigger] rest[i]).key@ != (
        #[trigger] rest[j]).key@ by {
            assert(entries[i].key@ != entries[j].key@);
        }
        lemma_table_len(rest);
        assert(!table_of(rest).dom().contains(k)) by {
            if table_of(rest).dom().contains(k) {
                let i = choose|i: int| names(rest, k, i);
                assert(entries[i].key@ != entries[entries.len() - 1].key@);
            }
        }
        assert(table_of(entries).dom() =~= table_of(rest).dom().insert(k)) by {
            assert forall|q: Seq<char>| #[trigger]
                table_of(entries).dom().contains(q) == table_of(rest).dom().insert(k).contains(q) by {
                if table_of(entries).dom().contains(q) {
                    let i = choose|i: int| names(entries, q, i);
                    if i < rest.len() {
                        assert(names(rest, q, i));
                    }
                }
                if table_of(rest).dom().contains(q) {
                    let i = choose|i: int| names(rest, q, i);
                    assert(names(entries, q, i));
                }
                assert(names(entries, k, entries.len() - 1));
            }
        }
    }
}

/// Changing the value or the tick of entry `i` changes the table there.
proof fn lemma_table_update<V>(entries: Seq<LruEntry<V>>, i: int, e: LruEntry<V>)
    requires
        distinct(entries),
        0 <= i < entries.len(),
        e.key@ == entries[i].key@,
    ensures
        distinct(entries.update(i, e)),
        table_of(entries.update(i, e)) == table_of(entries).insert(e.key@, (e.value, e.last_used_tick)),
{
    let after = entries.update(i, e);
    assert(distinct(after)) by {
        assert forall|a: int, b: int| 0 <= a < b < after.len() implies (#[trigger] after[a]).key@ != (
        #[trigger] after[b]).key@ by {
            assert(entries[a].key@ != entries[b].key@);
        }
    }
    let t = table_of(entries).insert(e.key@, (e.value, e.last_used_tick));
    assert(table_of(after) =~= t) by {
        assert forall|q: Seq<char>| #[trigger] table_of(after).dom().contains(q) == t.dom().contains(q) by {
            if table_of(after).dom().contains(q) {
                let p = choose|p: int| names(after, q, p);
                assert(names(entries, q, p));
            }
            if table_of(entries).dom().contains(q) {
                let p = choose|p: int| names(entries, q, p);
                assert(names(after, q, p));
            }
            assert(names(after, e.key@, i));
        }
        assert forall|q: Seq<char>| #[trigger] table_of(after).dom().contains(q) implies table_of(after)[q] == t[q] by {
            let p = choose|p: int| names(after, q, p);
            lemma_position(after, p);
            lemma_position(entries, p);
            if p != i {
                if p < i {
                    assert(entries[p].key@ != entries[i].key@);
                } else {
                    assert(entries[i].key@ != entries[p].key@);
                }
            }
        }
    }
}

proof fn lemma_table_push<V>(entries: Seq<LruEntry<V>>, e: LruEntry<V>)
    requires
        distinct(entries),
        !table_of(entries).dom().contains(e.key@),
    ensures
        distinct(entries.push(e)),
        table_of(entries.push(e)) == table_of(entries).insert(e.key@, (e.value, e.last_used_tick)),
{
    let after = entries.push(e);
    assert(distinct(after)) by {
        assert forall|a: int, b: int| 0 <= a < b < after.len() implies (#[trigger] after[a]).key@ != (
        #[trigger] after[b]).key@ by {
            if b == entries.len() {
                if entries[a].key@ == e.key@ {
                    assert(names(entries, e.key@, a));
                }
            } else {
                assert(entries[a].key@ != entries[b].key@);
            }
        }
    }
    let t = table_of(entries).insert(e.key@, (e.value, e.last_used_tick));
    assert(table_of(after) =~= t) by {
        assert forall|q: Seq<char>| #[trigger] table_of(after).dom().contains(q) == t.dom().contains(q) by {
            if table_of(after).dom().contains(q) {
                let p = choose|p: int| names(after, q, p);
                if p < entries.len() {
                    assert(names(entries, q, p));
                }
            }
            if table_of(entries).dom().contains(q) {
                let p = choose|p: int| names(entries, q, p);
                assert(names(after, q, p));
            }
            assert(names(after, e.key@, entries.len() as int));
        }
        assert forall|q: Seq<char>| #[trigger] table_of(after).dom().contains(q) implies table_of(after)[q] == t[q] by {
            let p = choose|p: int| names(after, q, p);
            lemma_position(after, p);
            if p < entries.len() {
                lemma_position(entries, p);
                assert(names(entries, q, p));
            }
        }
    }
}

proof fn lemma_table_remove<V>(entries: Seq<LruEntry<V>>, i: int)
    requires
        distinct(entries),
        0 <= i < entries.len(),
    ensures
        distinct(entries.remove(i)),
        table_of(entries.remove(i)) == table_of(entries).remove(entries[i].key@),
{
    let after = entries.remove(i);
    assert(distinct(after)) by {
        assert forall|a: int, b: int| 0 <= a < b < after.len() implies (#[trigger] after[a]).key@ != (
        #[trigger] after[b]).key@ by {
            let x = if a < i { a } else { a + 1 };
            let y = if b < i { b } else { b + 1 };
            assert(entries[x].key@ != entries[y].key@);
        }
    }
    let t = table_of(entries).remove(entries[i].key@);
    assert(table_of(after) =~= t) by {
        assert forall|q: Seq<char>| #[trigger] table_of(after).dom().contains(q) == t.dom().contains(q) by {
            if table_of(after).dom().contains(q) {
                let p = choose|p: int| names(after, q, p);
                let x = if p < i { p } else { p + 1 };
                assert(names(entries, q, x));
                if x < i {
                    assert(entries[x].key@ != entries[i].key@);
                } else {
                    assert(entries[i].key@ != entries[x].key@);
                }
            }
            if t.dom().contains(q) {
                let p = choose|p: int| names(entries, q, p);
                let x = if p < i { p } else { p - 1 };
                assert(p != i);
                assert(names(after, q, x));
            }
        }
        assert forall|q: Seq<char>| #[trigger] table_of(after).dom().contains(q) implies table_of(after)[q] == t[q] by {
            let p = choose|p: int| names(after, q, p);
            lemma_position(after, p);
            lemma_position(entries, if p < i { p } else { p + 1 });
        }
    }
}

impl<V: Copy> LruTable<V> {
    pub open spec fn wf(&self) -> bool {
        distinct(self.entries@)
    }

    pub open spec fn view(&self) -> Map<Seq<char>, (V, u64)> {
        table_of(self.entries@)
    }

    /// The tick that follows.
    pub open spec fn next(&self) -> u64 {
        saturated(self.usage_tick + 1) as u64
    }

    /// An empty table.
    pub fn new() -> (r: LruTable<V>)
        ensures
            r.wf(),
            r@ == Map::<Seq<char>, (V, u64)>::empty(),
            r.usage_tick == 0,
    {
        let r = LruTable { entries: Vec::new(), usage_tick: 0 };
        assert(r@ =~= Map::<Seq<char>, (V, u64)>::empty());
        r
    }

    /// How many names there are.
    pub fn len(&self) -> (r: usize)
        requires
            self.wf(),
        ensures
            r == self@.dom().len(),
    {
        proof {
            lemma_table_len(self.entries@);
        }
        self.entries.len()
    }

    pub fn next_tick(&mut self) -> (r: u64)
        ensures
            final(self).usage_tick == old(self).next(),
            r == old(self).next(),
            final(self).entries == old(self).entries,
    {
        self.usage_tick = self.usage_tick.saturating_add(1);
        self.usage_tick
    }

    /// The position of `key`.
    pub fn find(&self, key: &str) -> (r: Option<usize>)
        requires
            self.wf(),
        ensures
            match r {
                Some(i) => i < self.entries@.len() && self.entries@[i as int].key@ == key@ && self@.dom().contains(
                    key@,
                ) && self@[key@] == (self.entries@[i as int].value, self.entries@[i as int].last_used_tick),
                None => !self@.dom().contains(key@),
            },
    {
        let mut i: usize = 0;
        while i < self.entries.len()
            invariant
                self.wf(),
                i <= self.entries@.len(),
                forall|k: int| 0 <= k < i ==> (#[trigger] self.entries@[k]).key@ != key@,
            decreases self.entries@.len() - i,
        {
            if same(self.entries[i].key.as_str(), key) {
                proof {
                    lemma_position(self.entries@, i as int);
                }
                return Some(i);
            }
            i = i + 1;
        }
        None
    }

    /// The value of `key`; its use is not counted.
    pub fn peek(&self, key: &str) -> (r: Option<V>)
        requires
            self.wf(),
        ensures
            match r {
                Some(v) => self@.dom().contains(key@) && self@[key@].0 == v,
                None => !self@.dom().contains(key@),
            },
    {
        match self.find(key) {
            Some(i) => Some(self.entries[i].value),
            None => None,
        }
    }

    /// Puts `value` under `key` as of `tick`.
    pub fn put(&mut self, key: String, value: V, tick: u64)
        requires
            old(self).wf(),
        ensures
            final(self).wf(),
            final(self)@ == old(self)@.insert(key@, (value, tick)),
            final(self).usage_tick == old(self).usage_tick,
    {
        match self.find(key.as_str()) {
            Some(i) => {
                let e = LruEntry { key, value, last_used_tick: tick };
                proof {
                    lemma_table_update(self.entries@, i as int, e);
                }
                self.entries.set(i, e);
            },
            None => {
                let e = LruEntry { key, value, last_used_tick: tick };
                proof {
                    lemma_table_push(self.entries@, e);
                }
                self.entries.push(e);
            },
        }
    }

    /// Drops the entries that were not used for longest, until no more than
    /// `capacity` are left.
    pub fn prune_lru(&mut self, capacity: usize)
        requires
            old(self).wf(),
        ensures
            final(self).wf(),
            is_pruned(old(self)@, final(self)@, capacity as int),
            old(self)@.dom().len() <= capacity ==> final(self)@ == old(self)@,
            final(self).usage_tick == old(self).usage_tick,
    {
        proof {
            lemma_table_len(self.entries@);
        }
        let ghost first = self@;
        while self.entries.len() > capacity
            invariant
                self.wf(),
                first.dom().finite(),
                self@.dom().finite(),
                self@.dom().len() == self.entries@.len(),
                self.entries@.len() >= min_int(first.dom().len() as int, capacity as int),
                self.entries@.len() <= first.dom().len(),
                first.dom().len() <= capacity ==> self@ == first,
                self.usage_tick == old(self).usage_tick,
                forall|k: Seq<char>| #[trigger]
                    self@.dom().contains(k) ==> first.dom().contains(k) && self@[k] == first[k],
                forall|k: Seq<char>, g: Seq<char>|
                    #![trigger self@.dom().contains(k), first.dom().contains(g)]
                    self@.dom().contains(k) && first.dom().contains(g) && !self@.dom().contains(g) ==> first[g].1
                        <= first[k].1,
            decreases self.entries@.len(),
        {
            let mut oldest: usize = 0;
            let mut i: usize = 1;
            while i < self.entries.len()
                invariant
                    1 <= i <= self.entries@.len(),
                    oldest < i,
                    forall|k: int|
                        0 <= k < i ==> self.entries@[oldest as int].last_used_tick <= (
                        #[trigger] self.entries@[k]).last_used_tick,
                decreases self.entries@.len() - i,
            {
                if self.entries[i].last_used_tick < self.entries[oldest].last_used_tick {
                    oldest = i;
                }
                i = i + 1;
            }
            let ghost before = *self;
            let ghost gone = self.entries@[oldest as int];
            proof {
                lemma_position(self.entries@, oldest as int);
                lemma_table_remove(self.entries@, oldest as int);
            }
            self.entries.remove(oldest);
            proof {
                lemma_table_len(self.entries@);
                assert forall|k: Seq<char>, g: Seq<char>|
                    #![trigger self@.dom().contains(k), first.dom().contains(g)]
                    self@.dom().contains(k) && first.dom().contains(g) && !self@.dom().contains(g) implies first[g].1
                    <= first[k].1 by {
                    assert(before@.dom().contains(k));
                    if before@.dom().contains(g) {
                        assert(g == gone.key@);
                        let p = choose|p: int| names(before.entries@, k, p);
                        lemma_position(before.entries@, p);
                    }
                }
            }
        }
    }
}

/// A table never holds more than its capacity after pruning, and keeps what
/// was used last.
pub proof fn law_latest_survives<V>(
    before: Map<Seq<char>, (V, u64)>,
    after: Map<Seq<char>, (V, u64)>,
    capacity: int,
    k: Seq<char>,
)
    requires
        is_pruned(before, after, capacity),
        before.dom().finite(),
        capacity > 0,
        before.dom().contains(k),
        forall|g: Seq<char>| #[trigger] before.dom().contains(g) && g != k ==> before[g].1 < before[k].1,
    ensures
        after.dom().len() <= capacity,
        after.dom().contains(k),
        after[k] == before[k],
{
    if !after.dom().contains(k) {
        if after.dom().len() == 0 {
            assert(before.dom().len() == 0);
            assert(before.dom() =~= Set::empty());
            assert(false);
        }
        let g = after.dom().choose();
        assert(after.dom().contains(g));
        assert(before.dom().contains(g));
        assert(false);
    }
}

} // verus!
