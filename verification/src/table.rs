//! A table of unique keys, kept in insertion order.

use vstd::prelude::*;

verus! {

/// A key of a [`Table`]: two keys are the same exactly when their views are.
pub trait TableKey: View + Sized {
    /// Whether two keys are the same.
    fn same_key(&self, other: &Self) -> (same: bool)
        ensures
            same == (self@ == other@),
    ;

    /// Another key with the same view.
    fn duplicate(&self) -> (copy: Self)
        ensures
            copy@ == self@,
    ;
}

impl TableKey for String {
    fn same_key(&self, other: &Self) -> (same: bool) {
        self.eq(other)
    }

    fn duplicate(&self) -> (copy: Self) {
        self.clone()
    }
}

/// Associates each key with one value.
pub struct Table<K: TableKey, T> {
    entries: Vec<(K, T)>,
}

spec fn distinct_keys<K: TableKey, T>(entries: Seq<(K, T)>) -> bool {
    forall|i: int, j: int|
        0 <= i < j < entries.len() ==> (#[trigger] entries[i]).0@ != (#[trigger] entries[j]).0@
}

spec fn key_index<K: TableKey, T>(entries: Seq<(K, T)>, key: K::V) -> int {
    choose|i: int| 0 <= i < entries.len() && (#[trigger] entries[i]).0@ == key
}

spec fn has_key<K: TableKey, T>(entries: Seq<(K, T)>, key: K::V) -> bool {
    exists|i: int| 0 <= i < entries.len() && (#[trigger] entries[i]).0@ == key
}

spec fn entries_map<K: TableKey, T>(entries: Seq<(K, T)>) -> Map<K::V, T> {
    Map::new(|key: K::V| has_key(entries, key), |key: K::V| entries[key_index(entries, key)].1)
}

proof fn lemma_entry<K: TableKey, T>(entries: Seq<(K, T)>, i: int)
    requires
        distinct_keys(entries),
        0 <= i < entries.len(),
    ensures
        entries_map(entries).dom().contains(entries[i].0@),
        entries_map(entries)[entries[i].0@] == entries[i].1,
{
    assert(has_key(entries, entries[i].0@));
    let k = key_index(entries, entries[i].0@);
    assert(0 <= k < entries.len() && entries[k].0@ == entries[i].0@);
    assert(k == i);
}

proof fn lemma_push<K: TableKey, T>(entries: Seq<(K, T)>, key: K, value: T)
    requires
        distinct_keys(entries),
        !has_key(entries, key@),
    ensures
        distinct_keys(entries.push((key, value))),
        entries_map(entries.push((key, value))) == entries_map(entries).insert(key@, value),
{
    let after = entries.push((key, value));
    assert forall|k: K::V| has_key(after, k) == (has_key(entries, k) || k == key@) by {
        if has_key(entries, k) {
            let i = key_index(entries, k);
            assert(after[i].0@ == k);
        }
        assert(after[entries.len() as int].0@ == key@);
    }
    assert forall|k: K::V| has_key(after, k) implies entries_map(after)[k] == entries_map(entries).insert(key@, value)[k] by {
        let i = key_index(after, k);
        assert(0 <= i < after.len() && after[i].0@ == k);
        lemma_entry(after, i);
        if i < entries.len() {
            assert(entries[i].0@ == k);
            lemma_entry(entries, i);
        }
    }
    assert(entries_map(after) =~= entries_map(entries).insert(key@, value));
}

proof fn lemma_remove<K: TableKey, T>(entries: Seq<(K, T)>, i: int)
    requires
        distinct_keys(entries),
        0 <= i < entries.len(),
    ensures
        distinct_keys(entries.remove(i)),
        entries_map(entries.remove(i)) == entries_map(entries).remove(entries[i].0@),
{
    let after = entries.remove(i);
    let gone = entries[i].0@;
    assert forall|a: int, b: int| 0 <= a < b < after.len() implies (#[trigger] after[a]).0@ != (
    #[trigger] after[b]).0@ by {
        let x = if a < i { a } else { a + 1 };
        let y = if b < i { b } else { b + 1 };
        assert(after[a] == entries[x] && after[b] == entries[y]);
    }
    assert forall|k: K::V| has_key(after, k) == (has_key(entries, k) && k != gone) by {
        if has_key(after, k) {
            let a = key_index(after, k);
            assert(0 <= a < after.len() && after[a].0@ == k);
            let x = if a < i { a } else { a + 1 };
            assert(after[a] == entries[x]);
        }
        if has_key(entries, k) && k != gone {
            let x = key_index(entries, k);
            assert(0 <= x < entries.len() && entries[x].0@ == k);
            let a = if x < i { x } else { x - 1 };
            assert(after[a] == entries[x]);
        }
    }
    assert forall|k: K::V| has_key(after, k) implies entries_map(after)[k] == entries_map(entries).remove(gone)[k] by {
        let a = key_index(after, k);
        assert(0 <= a < after.len() && after[a].0@ == k);
        let x = if a < i { a } else { a + 1 };
        assert(after[a] == entries[x]);
        lemma_entry(after, a);
        lemma_entry(entries, x);
    }
    assert(entries_map(after) =~= entries_map(entries).remove(gone));
}

impl<K: TableKey, T> View for Table<K, T> {
    type V = Map<K::V, T>;

    closed spec fn view(&self) -> Map<K::V, T> {
        entries_map(self.entries@)
    }
}

/// The views of a sequence of keys.
pub open spec fn key_views<K: View>(keys: Seq<K>) -> Seq<K::V> {
    keys.map_values(|key: K| key@)
}

impl<K: TableKey, T> Table<K, T> {
    #[verifier::type_invariant]
    spec fn wf(self) -> bool {
        distinct_keys(self.entries@)
    }

    /// An empty table.
    pub fn new() -> (table: Self)
        ensures
            table@ == Map::<K::V, T>::empty(),
    {
        let table = Table { entries: Vec::new() };
        assert(table@ =~= Map::<K::V, T>::empty());
        table
    }

    fn find(&self, key: &K) -> (found: Option<usize>)
        ensures
            match found {
                Some(i) => i < self.entries@.len() && self.entries@[i as int].0@ == key@,
                None => !has_key(self.entries@, key@),
            },
    {
        let mut i: usize = 0;
        while i < self.entries.len()
            invariant
                i <= self.entries@.len(),
                forall|j: int| 0 <= j < i ==> (#[trigger] self.entries@[j]).0@ != key@,
            decreases self.entries@.len() - i,
        {
            if self.entries[i].0.same_key(key) {
                return Some(i);
            }
            i = i + 1;
        }
        None
    }

    /// The number of keys.
    pub fn len(&self) -> (n: usize)
        ensures
            n == self@.dom().len(),
            self@.dom().finite(),
    {
        proof {
            use_type_invariant(self);
            let keys = key_views(self.entries@.map_values(|e: (K, T)| e.0));
            assert(keys.no_duplicates());
            keys.unique_seq_to_set();
            assert(keys.to_set() =~= self@.dom()) by {
                assert forall|k: K::V| keys.to_set().contains(k) == self@.dom().contains(k) by {
                    if keys.contains(k) {
                        let i = choose|i: int| 0 <= i < keys.len() && keys[i] == k;
                        assert(self.entries@[i].0@ == k);
                    }
                    if has_key(self.entries@, k) {
                        let i = key_index(self.entries@, k);
                        assert(keys[i] == k);
                    }
                }
            }
        }
        self.entries.len()
    }

    /// Whether `key` has a value.
    pub fn contains_key(&self, key: &K) -> (found: bool)
        ensures
            found == self@.dom().contains(key@),
    {
        proof {
            use_type_invariant(self);
        }
        match self.find(key) {
            Some(i) => {
                proof {
                    lemma_entry(self.entries@, i as int);
                }
                true
            },
            None => false,
        }
    }

    /// The value of `key`.
    pub fn get(&self, key: &K) -> (value: Option<&T>)
        ensures
            match value {
                Some(v) => self@.dom().contains(key@) && *v == self@[key@],
                None => !self@.dom().contains(key@),
            },
    {
        proof {
            use_type_invariant(self);
        }
        match self.find(key) {
            Some(i) => {
                proof {
                    lemma_entry(self.entries@, i as int);
                }
                Some(&self.entries[i].1)
            },
            None => None,
        }
    }

    /// Takes the value of `key` out of the table.
    pub fn remove(&mut self, key: &K) -> (value: Option<T>)
        ensures
            final(self)@ == old(self)@.remove(key@),
            match value {
                Some(v) => old(self)@.dom().contains(key@) && v == old(self)@[key@],
                None => !old(self)@.dom().contains(key@),
            },
    {
        proof {
            use_type_invariant(&*self);
        }
        match self.find(key) {
            Some(i) => {
                let mut entries: Vec<(K, T)> = Vec::new();
                std::mem::swap(&mut entries, &mut self.entries);
                proof {
                    lemma_entry(entries@, i as int);
                    lemma_remove(entries@, i as int);
                }
                let taken: (K, T) = entries.remove(i);
                self.entries = entries;
                Some(taken.1)
            },
            None => {
                assert(self@.remove(key@) =~= self@);
                None
            },
        }
    }

    /// Gives `key` the value `value`, and returns the value that it had before.
    pub fn insert(&mut self, key: K, value: T) -> (previous: Option<T>)
        ensures
            final(self)@ == old(self)@.insert(key@, value),
            match previous {
                Some(v) => old(self)@.dom().contains(key@) && v == old(self)@[key@],
                None => !old(self)@.dom().contains(key@),
            },
    {
        let previous: Option<T> = self.remove(&key);
        proof {
            use_type_invariant(&*self);
            assert(!self@.dom().contains(key@));
            lemma_push(self.entries@, key, value);
        }
        let mut entries: Vec<(K, T)> = Vec::new();
        std::mem::swap(&mut entries, &mut self.entries);
        entries.push((key, value));
        self.entries = entries;
        assert(self@ =~= old(self)@.insert(key@, value));
        previous
    }

    /// Drops every entry.
    pub fn clear(&mut self)
        ensures
            final(self)@ == Map::<K::V, T>::empty(),
    {
        self.entries = Vec::new();
        assert(self@ =~= Map::<K::V, T>::empty());
    }

    /// The keys of the table, each once.
    pub fn keys(&self) -> (keys: Vec<K>)
        ensures
            key_views(keys@).no_duplicates(),
            key_views(keys@).to_set() == self@.dom(),
    {
        proof {
            use_type_invariant(self);
        }
        let mut keys: Vec<K> = Vec::new();
        let mut i: usize = 0;
        while i < self.entries.len()
            invariant
                i == keys@.len(),
                i <= self.entries@.len(),
                forall|j: int| 0 <= j < i ==> (#[trigger] keys@[j])@ == self.entries@[j].0@,
            decreases self.entries@.len() - i,
        {
            keys.push(self.entries[i].0.duplicate());
            i = i + 1;
        }
        proof {
            let views = key_views(keys@);
            assert forall|a: int, b: int|
                0 <= a < views.len() && 0 <= b < views.len() && a != b implies views[a]
                != views[b] by {
                assert(views[a] == self.entries@[a].0@ && views[b] == self.entries@[b].0@);
            }
            assert forall|k: K::V| views.to_set().contains(k) == self@.dom().contains(k) by {
                if views.contains(k) {
                    let j = choose|j: int| 0 <= j < views.len() && views[j] == k;
                    assert(self.entries@[j].0@ == k);
                }
                if has_key(self.entries@, k) {
                    let j = key_index(self.entries@, k);
                    assert(keys@[j]@ == k);
                    assert(views[j] == k);
                }
            }
            assert(views.to_set() =~= self@.dom());
        }
        keys
    }
}

impl<K: TableKey, T: Copy> Clone for Table<K, T> {
    fn clone(&self) -> (copy: Self)
        ensures
            copy@ == self@,
    {
        proof {
            use_type_invariant(self);
        }
        let mut entries: Vec<(K, T)> = Vec::new();
        let mut i: usize = 0;
        while i < self.entries.len()
            invariant
                i == entries@.len(),
                i <= self.entries@.len(),
                forall|j: int|
                    0 <= j < i ==> (#[trigger] entries@[j]).0@ == self.entries@[j].0@
                        && entries@[j].1 == self.entries@[j].1,
            decreases self.entries@.len() - i,
        {
            entries.push((self.entries[i].0.duplicate(), self.entries[i].1));
            i = i + 1;
        }
        proof {
            assert forall|a: int, b: int| 0 <= a < b < entries@.len() implies (
            #[trigger] entries@[a]).0@ != (#[trigger] entries@[b]).0@ by {
                assert(self.entries@[a].0@ != self.entries@[b].0@);
            }
            assert forall|k: K::V| has_key(entries@, k) == has_key(self.entries@, k) by {
                if has_key(entries@, k) {
                    let j = key_index(entries@, k);
                    assert(self.entries@[j].0@ == k);
                }
                if has_key(self.entries@, k) {
                    let j = key_index(self.entries@, k);
                    assert(entries@[j].0@ == k);
                }
            }
            assert forall|k: K::V| has_key(entries@, k) implies entries_map(entries@)[k]
                == entries_map(self.entries@)[k] by {
                let j = key_index(entries@, k);
                lemma_entry(entries@, j);
                lemma_entry(self.entries@, j);
            }
            assert(entries_map(entries@) =~= entries_map(self.entries@));
        }
        Table { entries }
    }
}

/// A set of keys.
pub struct KeySet<K: TableKey> {
    table: Table<K, ()>,
}

impl<K: TableKey> View for KeySet<K> {
    type V = Set<K::V>;

    closed spec fn view(&self) -> Set<K::V> {
        self.table@.dom()
    }
}

impl<K: TableKey> KeySet<K> {
    /// An empty set.
    pub fn new() -> (set: Self)
        ensures
            set@ == Set::<K::V>::empty(),
    {
        let set = KeySet { table: Table::new() };
        assert(set@ =~= Set::<K::V>::empty());
        set
    }

    /// Whether `key` is in the set.
    pub fn contains(&self, key: &K) -> (found: bool)
        ensures
            found == self@.contains(key@),
    {
        self.table.contains_key(key)
    }

    /// Puts `key` into the set; the result says whether it was absent.
    pub fn insert(&mut self, key: K) -> (added: bool)
        ensures
            final(self)@ == old(self)@.insert(key@),
            added == !old(self)@.contains(key@),
    {
        let added = self.table.insert(key, ()).is_none();
        assert(self@ =~= old(self)@.insert(key@));
        added
    }

    /// Takes `key` out of the set; the result says whether it was present.
    pub fn remove(&mut self, key: &K) -> (removed: bool)
        ensures
            final(self)@ == old(self)@.remove(key@),
            removed == old(self)@.contains(key@),
    {
        let removed = self.table.remove(key).is_some();
        assert(self@ =~= old(self)@.remove(key@));
        removed
    }

    /// The number of keys.
    pub fn len(&self) -> (n: usize)
        ensures
            n == self@.len(),
            self@.finite(),
    {
        self.table.len()
    }

    /// Drops every key.
    pub fn clear(&mut self)
        ensures
            final(self)@ == Set::<K::V>::empty(),
    {
        self.table.clear();
        assert(self@ =~= Set::<K::V>::empty());
    }

    /// Another set with the same keys.
    pub fn copy(&self) -> (copy: Self)
        ensures
            copy@ == self@,
    {
        let keys: Vec<K> = self.keys();
        let ghost order = key_views(keys@);
        let mut copy: KeySet<K> = KeySet::new();
        let mut i: usize = 0;
        assert(order.subrange(0, 0).to_set() =~= Set::<K::V>::empty());
        while i < keys.len()
            invariant
                i <= keys@.len(),
                order == key_views(keys@),
                copy@ == order.subrange(0, i as int).to_set(),
            decreases keys@.len() - i,
        {
            let ghost upto = order.subrange(0, i as int);
            let key: K = keys[i].duplicate();
            copy.insert(key);
            proof {
                let next = order.subrange(0, i + 1);
                assert(order[i as int] == key@);
                assert(next =~= upto.push(key@));
                assert forall|k: K::V| next.to_set().contains(k) == upto.to_set().insert(
                    key@,
                ).contains(k) by {
                    if upto.contains(k) {
                        let j = choose|j: int| 0 <= j < upto.len() && upto[j] == k;
                        assert(next[j] == k);
                    }
                    if k == key@ {
                        assert(next[i as int] == k);
                    }
                }
                assert(next.to_set() =~= upto.to_set().insert(key@));
            }
            i = i + 1;
        }
        assert(order.subrange(0, keys@.len() as int) =~= order);
        copy
    }

    /// The keys, each once.
    pub fn keys(&self) -> (keys: Vec<K>)
        ensures
            key_views(keys@).no_duplicates(),
            key_views(keys@).to_set() == self@,
    {
        self.table.keys()
    }
}

impl<K: TableKey> Clone for KeySet<K> {
    fn clone(&self) -> (copy: Self)
        ensures
            copy@ == self@,
    {
        self.copy()
    }
}

} // verus!
