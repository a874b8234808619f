//! A verified keyed store: an association list from addresses to records,
//! viewed as a `Map<Addr, V>`.
//!
//! Every persisted account class of the engine (balances, token accounts,
//! configurations, listings, offers, metadata) lives in one of these tables.
//! A record is absent exactly when its address is not in the table's map
//! view.

use vstd::prelude::*;

use crate::addr::Addr;

verus! {

/// The map described by an entry sequence: later entries shadow earlier ones.
pub open spec fn map_of<V>(s: Seq<(Addr, V)>) -> Map<Addr, V>
    decreases s.len(),
{
    if s.len() == 0 {
        Map::empty()
    } else {
        map_of(s.drop_last()).insert(s.last().0, s.last().1)
    }
}

/// All keys in an entry sequence are distinct.
pub open spec fn distinct_keys<V>(s: Seq<(Addr, V)>) -> bool {
    forall|i: int, j: int| 0 <= i < j < s.len() ==> (#[trigger] s[i]).0 != (#[trigger] s[j]).0
}

/// Distinctness of keys is inherited by the sequence without its last entry.
pub proof fn lemma_distinct_prefix<V>(s: Seq<(Addr, V)>)
    requires
        distinct_keys(s),
        s.len() > 0,
    ensures
        distinct_keys(s.drop_last()),
{
    assert forall|a: int, b: int| 0 <= a < b < s.drop_last().len()
        implies (#[trigger] s.drop_last()[a]).0 != (#[trigger] s.drop_last()[b]).0 by {
        assert(s.drop_last()[a] == s[a] && s.drop_last()[b] == s[b]);
        assert(s[a].0 != s[b].0);
    }
}

/// A key occurs in a sequence exactly when the map of the sequence knows it.
pub proof fn lemma_map_of_contains<V>(s: Seq<(Addr, V)>, k: Addr)
    ensures
        map_of(s).contains_key(k) <==> exists|i: int| 0 <= i < s.len() && (#[trigger] s[i]).0 == k,
    decreases s.len(),
{
    if s.len() > 0 {
        lemma_map_of_contains(s.drop_last(), k);
        if s.last().0 == k {
            assert(s[s.len() - 1].0 == k);
        } else if map_of(s).contains_key(k) {
            let i = choose|i: int| 0 <= i < s.drop_last().len() && (#[trigger] s.drop_last()[i]).0 == k;
            assert(s[i].0 == k);
        } else if exists|i: int| 0 <= i < s.len() && (#[trigger] s[i]).0 == k {
            let i = choose|i: int| 0 <= i < s.len() && (#[trigger] s[i]).0 == k;
            assert(s.drop_last()[i].0 == k);
        }
    }
}

/// With distinct keys, the map of a sequence takes each key to the value
/// stored beside it.
pub proof fn lemma_map_of_index<V>(s: Seq<(Addr, V)>, i: int)
    requires
        distinct_keys(s),
        0 <= i < s.len(),
    ensures
        map_of(s).contains_key(s[i].0),
        map_of(s)[s[i].0] == s[i].1,
    decreases s.len(),
{
    if i == s.len() - 1 {
    } else {
        assert(s[i].0 != s[s.len() - 1].0);
        assert(s.drop_last()[i] == s[i]);
        lemma_distinct_prefix(s);
        lemma_map_of_index(s.drop_last(), i);
    }
}

/// Overwriting the value stored at a key updates the map at that key.
pub proof fn lemma_map_of_update<V>(s: Seq<(Addr, V)>, i: int, v: V)
    requires
        distinct_keys(s),
        0 <= i < s.len(),
    ensures
        distinct_keys(s.update(i, (s[i].0, v))),
        map_of(s.update(i, (s[i].0, v))) == map_of(s).insert(s[i].0, v),
    decreases s.len(),
{
    let k = s[i].0;
    let t = s.update(i, (k, v));
    assert forall|a: int, b: int| 0 <= a < b < t.len() implies (#[trigger] t[a]).0 != (#[trigger] t[b]).0 by {
        assert(t[a].0 == s[a].0 && t[b].0 == s[b].0);
    }
    if i == s.len() - 1 {
        assert(t.drop_last() =~= s.drop_last());
        assert(map_of(t) =~= map_of(s).insert(k, v));
    } else {
        assert(t.drop_last() =~= s.drop_last().update(i, (k, v)));
        assert(s.drop_last()[i] == s[i]);
        lemma_distinct_prefix(s);
        lemma_map_of_update(s.drop_last(), i, v);
        assert(s[i].0 != s[s.len() - 1].0);
        assert(map_of(t) =~= map_of(s).insert(k, v));
    }
}

/// Removing the entry at a key removes that key from the map.
pub proof fn lemma_map_of_remove<V>(s: Seq<(Addr, V)>, i: int)
    requires
        distinct_keys(s),
        0 <= i < s.len(),
    ensures
        distinct_keys(s.remove(i)),
        map_of(s.remove(i)) == map_of(s).remove(s[i].0),
    decreases s.len(),
{
    let k = s[i].0;
    let t = s.remove(i);
    assert forall|a: int, b: int| 0 <= a < b < t.len() implies (#[trigger] t[a]).0 != (#[trigger] t[b]).0 by {
        let a0: int = if a < i { a } else { a + 1 };
        let b0: int = if b < i { b } else { b + 1 };
        assert(t[a].0 == s[a0].0 && t[b].0 == s[b0].0);
    }
    if i == s.len() - 1 {
        assert(t =~= s.drop_last());
        lemma_map_of_contains(t, k);
        assert forall|j: int| 0 <= j < t.len() implies (#[trigger] t[j]).0 != k by {
            assert(t[j] == s[j]);
            assert(s[j].0 != s[i].0);
        }
        assert(!map_of(t).contains_key(k));
        assert(map_of(s.remove(i)) =~= map_of(s).remove(k));
    } else {
        assert(t.drop_last() =~= s.drop_last().remove(i));
        assert(s.drop_last()[i] == s[i]);
        lemma_distinct_prefix(s);
        lemma_map_of_remove(s.drop_last(), i);
        assert(s[i].0 != s[s.len() - 1].0);
        assert(map_of(s.remove(i)) =~= map_of(s).remove(k));
    }
}

/// Appending an entry under a fresh key inserts it into the map.
pub proof fn lemma_map_of_push<V>(s: Seq<(Addr, V)>, k: Addr, v: V)
    requires
        distinct_keys(s),
        !map_of(s).contains_key(k),
    ensures
        distinct_keys(s.push((k, v))),
        map_of(s.push((k, v))) == map_of(s).insert(k, v),
{
    let t = s.push((k, v));
    lemma_map_of_contains(s, k);
    assert forall|a: int, b: int| 0 <= a < b < t.len() implies (#[trigger] t[a]).0 != (#[trigger] t[b]).0 by {
        if b < t.len() - 1 {
            assert(t[a] == s[a] && t[b] == s[b]);
            assert(s[a].0 != s[b].0);
        } else {
            assert(t[a] == s[a]);
            assert(!(exists|j: int| 0 <= j < s.len() && (#[trigger] s[j]).0 == k));
        }
    }
    assert(t.drop_last() =~= s);
}

/// A keyed store of records of type `V`.
pub struct Table<V> {
    pub entries: Vec<(Addr, V)>,
}

impl<V> View for Table<V> {
    type V = Map<Addr, V>;

    open spec fn view(&self) -> Map<Addr, V> {
        map_of(self.entries@)
    }
}

impl<V> Table<V> {
    /// The table stores each key at most once.
    pub open spec fn wf(&self) -> bool {
        distinct_keys(self.entries@)
    }

    /// An empty table.
    pub fn new() -> (t: Self)
        ensures
            t.wf(),
            t@ == Map::<Addr, V>::empty(),
    {
        Table { entries: Vec::new() }
    }

    /// The position of a key's entry, if the key is present.
    pub fn index_of(&self, k: Addr) -> (r: Option<usize>)
        requires
            self.wf(),
        ensures
            match r {
                Some(i) => i < self.entries@.len() && self.entries@[i as int].0 == k
                    && self@.contains_key(k) && self@[k] == self.entries@[i as int].1,
                None => !self@.contains_key(k),
            },
    {
        let n = self.entries.len();
        let mut i: usize = 0;
        while i < n
            invariant
                n == self.entries@.len(),
                0 <= i <= n,
                forall|j: int| 0 <= j < i ==> (#[trigger] self.entries@[j]).0 != k,
                self.wf(),
            decreases n - i,
        {
            if self.entries[i].0 == k {
                proof {
                    lemma_map_of_index(self.entries@, i as int);
                }
                return Some(i);
            }
            i = i + 1;
        }
        proof {
            lemma_map_of_contains(self.entries@, k);
        }
        None
    }

    /// Whether a record exists at the key.
    pub fn contains(&self, k: Addr) -> (b: bool)
        requires
            self.wf(),
        ensures
            b == self@.contains_key(k),
    {
        self.index_of(k).is_some()
    }

    /// The record at a key, if present.
    pub fn get(&self, k: Addr) -> (r: Option<&V>)
        requires
            self.wf(),
        ensures
            match r {
                Some(v) => self@.contains_key(k) && *v == self@[k],
                None => !self@.contains_key(k),
            },
    {
        match self.index_of(k) {
            Some(i) => Some(&self.entries[i].1),
            None => None,
        }
    }

    /// Stores a record at a key, replacing any record already there.
    pub fn put(&mut self, k: Addr, v: V)
        requires
            old(self).wf(),
        ensures
            final(self).wf(),
            final(self)@ == old(self)@.insert(k, v),
    {
        match self.index_of(k) {
            Some(i) => {
                proof {
                    lemma_map_of_update(self.entries@, i as int, v);
                }
                self.entries[i] = (k, v);
            }
            None => {
                proof {
                    lemma_map_of_push(self.entries@, k, v);
                }
                self.entries.push((k, v));
            }
        }
    }

    /// Deletes the record at a key; a no-op when the key is absent.
    pub fn delete(&mut self, k: Addr)
        requires
            old(self).wf(),
        ensures
            final(self).wf(),
            final(self)@ == old(self)@.remove(k),
    {
        match self.index_of(k) {
            Some(i) => {
                proof {
                    lemma_map_of_remove(self.entries@, i as int);
                }
                self.entries.remove(i);
            }
            None => {
                proof {
                    assert(self@.remove(k) =~= self@);
                }
            }
        }
    }
}

impl<V: Copy> Table<V> {
    /// An entry-for-entry copy of the table.
    pub fn duplicate(&self) -> (r: Self)
        ensures
            r.entries@ == self.entries@,
            r@ == self@,
            r.wf() == self.wf(),
    {
        let n = self.entries.len();
        let mut out: Vec<(Addr, V)> = Vec::new();
        let mut i: usize = 0;
        while i < n
            invariant
                n == self.entries@.len(),
                0 <= i <= n,
                out@ =~= self.entries@.subrange(0, i as int),
            decreases n - i,
        {
            out.push(self.entries[i]);
            i = i + 1;
        }
        proof {
            assert(out@ =~= self.entries@);
        }
        Table { entries: out }
    }
}

} // verus!
