//! A small map from keys to values, kept as a list of entries with distinct
//! keys.
use vstd::prelude::*;

verus! {

/// Keys that can be compared by their views.
pub trait SameKey: View + Sized {
    fn same_key(&self, other: &Self) -> (r: bool)
        ensures
            r == (self@ == other@),
    ;
}

/// The map that a list of entries describes, a later entry overriding an
/// earlier one with the same key.
pub open spec fn map_of<K: View, V: View>(e: Seq<(K, V)>) -> Map<K::V, V::V>
    decreases e.len(),
{
    if e.len() == 0 {
        Map::empty()
    } else {
        map_of(e.drop_last()).insert(e.last().0@, e.last().1@)
    }
}

/// No two entries have the same key.
pub open spec fn distinct_keys<K: View, V>(e: Seq<(K, V)>) -> bool {
    forall|i: int, j: int| 0 <= i < j < e.len() ==> e[i].0@ != e[j].0@
}

/// No entry after the `i`th has its key.
pub open spec fn last_with_key<K: View, V>(e: Seq<(K, V)>, i: int) -> bool {
    forall|j: int| i < j < e.len() ==> e[j].0@ != e[i].0@
}

proof fn lemma_map_of_entry<K: View, V: View>(e: Seq<(K, V)>, i: int)
    requires
        last_with_key(e, i),
        0 <= i < e.len(),
    ensures
        map_of(e).contains_key(e[i].0@),
        map_of(e)[e[i].0@] == e[i].1@,
    decreases e.len(),
{
    if i < e.len() - 1 {
        lemma_map_of_entry(e.drop_last(), i);
    }
}

proof fn lemma_map_of_absent<K: View, V: View>(e: Seq<(K, V)>, k: K::V)
    requires
        forall|i: int| 0 <= i < e.len() ==> e[i].0@ != k,
    ensures
        !map_of(e).contains_key(k),
    decreases e.len(),
{
    if e.len() > 0 {
        lemma_map_of_absent(e.drop_last(), k);
    }
}

proof fn lemma_map_of_update<K: View, V: View>(e: Seq<(K, V)>, i: int, entry: (K, V))
    requires
        last_with_key(e, i),
        0 <= i < e.len(),
        entry.0@ == e[i].0@,
    ensures
        map_of(e.update(i, entry)) =~= map_of(e).insert(entry.0@, entry.1@),
    decreases e.len(),
{
    let u = e.update(i, entry);
    if i == e.len() - 1 {
        assert(u.drop_last() =~= e.drop_last());
    } else {
        assert(u.drop_last() =~= e.drop_last().update(i, entry));
        lemma_map_of_update(e.drop_last(), i, entry);
        assert(e[e.len() - 1].0@ != entry.0@);
    }
}

/// A map from keys to values. Each operation but `len` is correct whether or
/// not its keys are distinct; `new` and `insert` keep them distinct.
pub struct Table<K, V> {
    entries: Vec<(K, V)>,
}

impl<K: View, V: View> View for Table<K, V> {
    type V = Map<K::V, V::V>;

    closed spec fn view(&self) -> Map<K::V, V::V> {
        map_of(self.entries@)
    }
}

impl<K: SameKey, V: View> Table<K, V> {
    /// The table's entries have distinct keys.
    pub closed spec fn wf(&self) -> bool {
        distinct_keys(self.entries@)
    }

    /// An empty table.
    pub fn new() -> (r: Table<K, V>)
        ensures
            r.wf(),
            r@ == Map::<K::V, V::V>::empty(),
    {
        Table { entries: Vec::new() }
    }

    /// The number of keys.
    pub fn len(&self) -> (r: usize)
        requires
            self.wf(),
        ensures
            r == self@.len(),
    {
        proof {
            self.lemma_len();
        }
        self.entries.len()
    }

    proof fn lemma_len(&self)
        requires
            self.wf(),
        ensures
            self@.dom().finite(),
            self.entries@.len() == self@.len(),
        decreases self.entries@.len(),
    {
        lemma_map_of_len(self.entries@);
    }

    /// The last entry with key `key`, if there is one.
    fn find(&self, key: &K) -> (r: Option<usize>)
        ensures
            match r {
                Some(i) => i < self.entries@.len() && self.entries@[i as int].0@ == key@
                    && last_with_key(self.entries@, i as int),
                None => forall|i: int|
                    0 <= i < self.entries@.len() ==> self.entries@[i].0@ != key@,
            },
    {
        let mut i: usize = self.entries.len();
        while i > 0
            invariant
                i <= self.entries@.len(),
                forall|j: int| i <= j < self.entries@.len() ==> self.entries@[j].0@ != key@,
            decreases i,
        {
            i = i - 1;
            if self.entries[i].0.same_key(key) {
                return Some(i);
            }
        }
        None
    }

    /// Whether `key` has a value.
    pub fn contains_key(&self, key: &K) -> (r: bool)
        ensures
            r == self@.contains_key(key@),
    {
        match self.find(key) {
            Some(i) => {
                proof {
                    lemma_map_of_entry(self.entries@, i as int);
                }
                true
            },
            None => {
                proof {
                    lemma_map_of_absent(self.entries@, key@);
                }
                false
            },
        }
    }

    /// The value of `key`, if it has one.
    pub fn get(&self, key: &K) -> (r: Option<&V>)
        ensures
            match r {
                Some(v) => self@.contains_key(key@) && v@ == self@[key@],
                None => !self@.contains_key(key@),
            },
    {
        match self.find(key) {
            Some(i) => {
                proof {
                    lemma_map_of_entry(self.entries@, i as int);
                }
                Some(&self.entries[i].1)
            },
            None => {
                proof {
                    lemma_map_of_absent(self.entries@, key@);
                }
                None
            },
        }
    }

    /// Gives `key` the value `value`, replacing any value it had.
    pub fn insert(&mut self, key: K, value: V)
        ensures
            old(self).wf() ==> final(self).wf(),
            final(self)@ == old(self)@.insert(key@, value@),
    {
        match self.find(&key) {
            Some(i) => {
                proof {
                    lemma_map_of_update(self.entries@, i as int, (key, value));
                }
                self.entries.set(i, (key, value));
            },
            None => {
                let ghost before = self.entries@;
                self.entries.push((key, value));
                assert(self.entries@.drop_last() =~= before);
            },
        }
    }

    /// The entries, in no particular order; a later entry overrides an
    /// earlier one with the same key.
    pub fn entries(&self) -> (r: &Vec<(K, V)>)
        ensures
            self.wf() ==> distinct_keys(r@),
            map_of(r@) == self@,
    {
        &self.entries
    }
}

proof fn lemma_map_of_len<K: View, V: View>(e: Seq<(K, V)>)
    requires
        distinct_keys(e),
    ensures
        map_of(e).dom().finite(),
        map_of(e).len() == e.len(),
    decreases e.len(),
{
    if e.len() > 0 {
        lemma_map_of_len(e.drop_last());
        lemma_map_of_absent(e.drop_last(), e.last().0@);
    }
}

} // verus!
