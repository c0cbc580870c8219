//! Text by name, in the order in which the names came.

use vstd::prelude::*;
use crate::text::{owned, same};

verus! {

/// Values by name.
#[derive(Debug)]
pub struct TextMap {
    pub entries: Vec<(String, String)>,
}

/// The names and values of a list.
pub open spec fn pairs(v: Seq<(String, String)>) -> Seq<(Seq<char>, Seq<char>)> {
    v.map_values(|e: (String, String)| (e.0@, e.1@))
}

/// Entry `i` is the first that has the name `k`.
pub open spec fn is_named(s: Seq<(Seq<char>, Seq<char>)>, k: Seq<char>, i: int) -> bool {
    0 <= i < s.len() && s[i].0 == k && forall|j: int| 0 <= j < i ==> (#[trigger] s[j]).0 != k
}

/// `s` with the value `v` under the name `k`: in place of the value that was
/// there, or else at the end.
pub open spec fn with_entry(s: Seq<(Seq<char>, Seq<char>)>, k: Seq<char>, v: Seq<char>) -> Seq<(Seq<char>, Seq<char>)> {
    if exists|i: int| is_named(s, k, i) {
        s.update(choose|i: int| is_named(s, k, i), (k, v))
    } else {
        s.push((k, v))
    }
}

/// Every name occurs once.
pub open spec fn distinct_names(s: Seq<(Seq<char>, Seq<char>)>) -> bool {
    forall|i: int, j: int| 0 <= i < j < s.len() ==> (#[trigger] s[i]).0 != (#[trigger] s[j]).0
}

impl TextMap {
    pub open spec fn view(&self) -> Seq<(Seq<char>, Seq<char>)> {
        pairs(self.entries@)
    }

    pub open spec fn wf(&self) -> bool {
        distinct_names(self@)
    }

    pub fn new() -> (r: TextMap)
        ensures
            r@ == Seq::<(Seq<char>, Seq<char>)>::empty(),
            r.wf(),
    {
        let r = TextMap { entries: Vec::new() };
        assert(r@ =~= Seq::<(Seq<char>, Seq<char>)>::empty());
        r
    }

    pub fn len(&self) -> (r: usize)
        ensures
            r == self@.len(),
    {
        self.entries.len()
    }

    /// Puts `value` under `name`.
    pub fn insert(&mut self, name: String, value: String)
        ensures
            final(self)@ == with_entry(old(self)@, name@, value@),
            old(self).wf() ==> final(self).wf(),
    {
        let ghost s = self@;
        let mut i: usize = 0;
        while i < self.entries.len()
            invariant
                i <= self.entries@.len(),
                s == pairs(self.entries@),
                s == old(self)@,
                forall|j: int| 0 <= j < i ==> (#[trigger] s[j]).0 != name@,
            decreases self.entries@.len() - i,
        {
            if same(self.entries[i].0.as_str(), name.as_str()) {
                proof {
                    assert(is_named(s, name@, i as int));
                    let c = choose|c: int| is_named(s, name@, c);
                    assert(c == i) by {
                        if c < i {
                            assert(s[c].0 != name@);
                        } else if i < c {
                            assert(s[i as int].0 != name@);
                        }
                    }
                }
                let ghost k = name@;
                let ghost v = value@;
                self.entries.set(i, (name, value));
                assert(self@ =~= s.update(i as int, (k, v)));
                proof {
                    if distinct_names(s) {
                        assert forall|a: int, b: int| 0 <= a < b < self@.len() implies (#[trigger] self@[a]).0 != (
                        #[trigger] self@[b]).0 by {
                            assert(s[a].0 != s[b].0);
                        }
                    }
                }
                return ;
            }
            i = i + 1;
        }
        let ghost k = name@;
        let ghost v = value@;
        self.entries.push((name, value));
        assert(self@ =~= s.push((k, v)));
        proof {
            if distinct_names(s) {
                assert forall|a: int, b: int| 0 <= a < b < self@.len() implies (#[trigger] self@[a]).0 != (
                #[trigger] self@[b]).0 by {
                    if b < s.len() {
                        assert(s[a].0 != s[b].0);
                    } else {
                        assert(s[a].0 != k);
                    }
                }
            }
        }
    }
}

impl Clone for TextMap {
    fn clone(&self) -> (r: TextMap)
        ensures
            r@ == self@,
    {
        let mut entries: Vec<(String, String)> = Vec::new();
        let mut i: usize = 0;
        while i < self.entries.len()
            invariant
                i <= self.entries@.len(),
                entries@.len() == i,
                forall|k: int|
                    0 <= k < i ==> (#[trigger] entries@[k]).0@ == self.entries@[k].0@ && entries@[k].1@
                        == self.entries@[k].1@,
            decreases self.entries@.len() - i,
        {
            entries.push((owned(self.entries[i].0.as_str()), owned(self.entries[i].1.as_str())));
            i = i + 1;
        }
        let r = TextMap { entries };
        assert(r@ =~= self@);
        r
    }
}

/// What was put last under a name is what is found there.
pub proof fn law_last_value_wins(s: Seq<(Seq<char>, Seq<char>)>, k: Seq<char>, v: Seq<char>)
    ensures
        exists|i: int| is_named(with_entry(s, k, v), k, i) && with_entry(s, k, v)[i].1 == v,
{
    let after = with_entry(s, k, v);
    if exists|i: int| is_named(s, k, i) {
        let c = choose|i: int| is_named(s, k, i);
        assert forall|j: int| 0 <= j < c implies (#[trigger] after[j]).0 != k by {
            assert(s[j].0 != k);
        }
        assert(is_named(after, k, c));
    } else {
        assert forall|j: int| 0 <= j < s.len() implies (#[trigger] s[j]).0 != k by {
            if s[j].0 == k {
                lemma_first_named(s, k, j);
            }
        }
        assert forall|j: int| 0 <= j < s.len() implies (#[trigger] after[j]).0 != k by {
            assert(s[j].0 != k);
        }
        assert(is_named(after, k, s.len() as int));
    }
}

proof fn lemma_first_named(s: Seq<(Seq<char>, Seq<char>)>, k: Seq<char>, j: int)
    requires
        0 <= j < s.len(),
        s[j].0 == k,
    ensures
        exists|i: int| is_named(s, k, i),
    decreases j,
{
    if exists|i: int| 0 <= i < j && (#[trigger] s[i]).0 == k {
        let i = choose|i: int| 0 <= i < j && (#[trigger] s[i]).0 == k;
        lemma_first_named(s, k, i);
    } else {
        assert(is_named(s, k, j));
    }
}

} // verus!
