//! A small association table from addresses to copyable values, viewed as a
//! mathematical map. Later entries shadow earlier ones; lookups scan from the
//! most recent entry backwards.

use vstd::prelude::*;

verus! {

use crate::constants::Address;

/// Folds an entry list into a map, later entries winning.
pub open spec fn entries_map<V>(s: Seq<(Address, V)>) -> Map<Address, V>
    decreases s.len(),
{
    if s.len() == 0 {
        Map::empty()
    } else {
        entries_map(s.drop_last()).insert(s.last().0, s.last().1)
    }
}

/// An address-keyed table with map semantics.
pub struct Table<V> {
    entries: Vec<(Address, V)>,
}

impl<V: Copy> Table<V> {
    /// The table as a mathematical map.
    pub closed spec fn view(&self) -> Map<Address, V> {
        entries_map(self.entries@)
    }

    pub fn new() -> (r: Self)
        ensures
            r@ == Map::<Address, V>::empty(),
    {
        Table { entries: Vec::new() }
    }

    /// Binds `a` to `v`, shadowing any earlier binding.
    pub fn store(&mut self, a: Address, v: V)
        ensures
            final(self)@ == old(self)@.insert(a, v),
    {
        self.entries.push((a, v));
        proof {
            assert(self.entries@.drop_last() == old(self).entries@);
        }
    }

    /// Whether the table binds `a`.
    pub fn contains(&self, a: Address) -> (r: bool)
        ensures
            r == self@.dom().contains(a),
    {
        let n = self.entries.len();
        let mut i: usize = 0;
        while i < n
            invariant
                0 <= i <= n,
                n == self.entries@.len(),
                forall|k: int| 0 <= k < i ==> (#[trigger] self.entries@[k]).0 != a,
            decreases n - i,
        {
            if self.entries[i].0 == a {
                proof {
                    lemma_entries_found(self.entries@, a, i as int);
                }
                return true;
            }
            i = i + 1;
        }
        proof {
            lemma_entries_absent(self.entries@, a);
        }
        false
    }

    /// Looks `a` up; returns its binding if there is one.
    pub fn load(&self, a: Address) -> (r: Option<V>)
        ensures
            match r {
                Some(v) => self@.dom().contains(a) && self@[a] == v,
                None => !self@.dom().contains(a),
            },
    {
        let n = self.entries.len();
        let mut i: usize = n;
        while i > 0
            invariant
                0 <= i <= n,
                n == self.entries@.len(),
                forall|k: int| i <= k < n ==> (#[trigger] self.entries@[k]).0 != a,
            decreases i,
        {
            i = i - 1;
            let e = self.entries[i];
            if e.0 == a {
                proof {
                    lemma_entries_last_wins(self.entries@, a, i as int);
                }
                return Some(e.1);
            }
        }
        proof {
            lemma_entries_absent(self.entries@, a);
        }
        None
    }
}

impl<V: Copy> Table<V> {
    /// Every key the table binds, possibly with repetition.
    pub fn keys(&self) -> (r: Vec<Address>)
        ensures
            forall|k: int| 0 <= k < r@.len() ==> self@.dom().contains(#[trigger] r@[k]),
            forall|a: Address| self@.dom().contains(a) ==> r@.contains(a),
    {
        let n = self.entries.len();
        let mut r: Vec<Address> = Vec::new();
        let mut i: usize = 0;
        while i < n
            invariant
                0 <= i <= n,
                n == self.entries@.len(),
                forall|k: int|
                    0 <= k < r@.len() ==> entries_map(self.entries@).dom().contains(
                        #[trigger] r@[k],
                    ),
                forall|j: int| 0 <= j < i ==> r@.contains(#[trigger] self.entries@[j].0),
            decreases n - i,
        {
            let a = self.entries[i].0;
            proof {
                lemma_entries_found(self.entries@, a, i as int);
            }
            let ghost r0 = r@;
            r.push(a);
            proof {
                assert forall|j: int| 0 <= j < i + 1 implies r@.contains(
                    #[trigger] self.entries@[j].0) by {
                    if j < i {
                        assert(r0.contains(self.entries@[j].0));
                        let k = choose|k: int| 0 <= k < r0.len() && r0[k] == self.entries@[j].0;
                        assert(r@[k] == self.entries@[j].0);
                    } else {
                        assert(r@[r@.len() - 1] == a);
                    }
                }
            }
            i = i + 1;
        }
        proof {
            assert forall|a: Address| self@.dom().contains(a) implies r@.contains(a) by {
                lemma_entries_dom(self.entries@, a);
                let j = choose|j: int|
                    0 <= j < self.entries@.len() && (#[trigger] self.entries@[j]).0 == a;
                assert(r@.contains(self.entries@[j].0));
            }
        }
        r
    }
}

/// A bound key comes from some entry.
proof fn lemma_entries_dom<V>(s: Seq<(Address, V)>, a: Address)
    requires
        entries_map(s).dom().contains(a),
    ensures
        exists|j: int| 0 <= j < s.len() && (#[trigger] s[j]).0 == a,
    decreases s.len(),
{
    if s.len() > 0 {
        if s.last().0 == a {
            assert(s[s.len() - 1].0 == a);
        } else {
            lemma_entries_dom(s.drop_last(), a);
            let j = choose|j: int|
                0 <= j < s.drop_last().len() && (#[trigger] s.drop_last()[j]).0 == a;
            assert(s[j].0 == a);
        }
    }
}

/// If some entry has key `a`, the map binds `a`.
proof fn lemma_entries_found<V>(s: Seq<(Address, V)>, a: Address, i: int)
    requires
        0 <= i < s.len(),
        s[i].0 == a,
    ensures
        entries_map(s).dom().contains(a),
    decreases s.len(),
{
    if i == s.len() - 1 {
    } else {
        lemma_entries_found(s.drop_last(), a, i);
    }
}

/// If no entry has key `a`, the map does not bind `a`.
proof fn lemma_entries_absent<V>(s: Seq<(Address, V)>, a: Address)
    requires
        forall|k: int| 0 <= k < s.len() ==> (#[trigger] s[k]).0 != a,
    ensures
        !entries_map(s).dom().contains(a),
    decreases s.len(),
{
    if s.len() > 0 {
        lemma_entries_absent(s.drop_last(), a);
    }
}

/// The latest entry with key `a` gives the map's value at `a`.
proof fn lemma_entries_last_wins<V>(s: Seq<(Address, V)>, a: Address, i: int)
    requires
        0 <= i < s.len(),
        s[i].0 == a,
        forall|k: int| i < k < s.len() ==> (#[trigger] s[k]).0 != a,
    ensures
        entries_map(s).dom().contains(a),
        entries_map(s)[a] == s[i].1,
    decreases s.len(),
{
    if i == s.len() - 1 {
    } else {
        lemma_entries_last_wins(s.drop_last(), a, i);
    }
}

} // verus!
