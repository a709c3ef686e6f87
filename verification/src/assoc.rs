use vstd::prelude::*;

verus! {

/// What an [`Assoc`] holds: a map, and its keys in the order in which they were
/// first stored.
#[verifier::ext_equal]
#[verifier::reject_recursive_types(A)]
pub struct Dict<A, B> {
    pub map: Map<A, B>,
    pub keys: Seq<A>,
}

impl<A, B> Dict<A, B> {
    /// The dictionary without entries.
    pub open spec fn empty() -> Self {
        Dict { map: Map::empty(), keys: Seq::empty() }
    }

    /// Every key of the map is listed once, and nothing else is listed.
    pub open spec fn wf(self) -> bool {
        &&& self.keys.no_duplicates()
        &&& forall|k: A| #[trigger] self.keys.contains(k) <==> self.map.contains_key(k)
    }

    /// Whether there are no entries.
    pub open spec fn is_empty(self) -> bool {
        self.keys.len() == 0
    }

    /// The dictionary after `v` is stored under `k`. A new key comes last, a known
    /// key stays where it is.
    pub open spec fn put(self, k: A, v: B) -> Self {
        Dict {
            map: self.map.insert(k, v),
            keys: if self.keys.contains(k) {
                self.keys
            } else {
                self.keys.push(k)
            },
        }
    }

    /// The dictionary without the key `k`. The other keys keep their order.
    pub open spec fn without(self, k: A) -> Self {
        Dict {
            map: self.map.remove(k),
            keys: if self.keys.contains(k) {
                self.keys.remove(self.keys.index_of(k))
            } else {
                self.keys
            },
        }
    }

    /// The value under `k`, if there is one.
    pub open spec fn get(self, k: A) -> Option<B> {
        if self.map.contains_key(k) {
            Some(self.map[k])
        } else {
            None
        }
    }

    /// Storing keeps every key listed once.
    pub proof fn lemma_put_wf(self, k: A, v: B)
        requires
            self.wf(),
        ensures
            self.put(k, v).wf(),
    {
        let after = self.put(k, v);
        if !self.keys.contains(k) {
            assert(after.keys[self.keys.len() as int] == k);
            assert forall|x: A| after.keys.contains(x) <==> after.map.contains_key(x) by {
                if self.keys.contains(x) {
                    let i = self.keys.index_of(x);
                    assert(after.keys[i] == x);
                }
            }
        }
    }

    /// Taking a key out keeps every other key listed once.
    pub proof fn lemma_without_wf(self, k: A)
        requires
            self.wf(),
        ensures
            self.without(k).wf(),
    {
        let after = self.without(k);
        if self.keys.contains(k) {
            let i = self.keys.index_of(k);
            assert forall|x: A| after.keys.contains(x) <==> after.map.contains_key(x) by {
                if after.keys.contains(x) {
                    let j = after.keys.index_of(x);
                    let m = if j < i {
                        j
                    } else {
                        j + 1
                    };
                    assert(self.keys[m] == x);
                    assert(self.keys.contains(x));
                }
                if self.keys.contains(x) && x != k {
                    let m = self.keys.index_of(x);
                    let j = if m < i {
                        m
                    } else {
                        m - 1
                    };
                    assert(after.keys[j] == x);
                }
            }
        } else {
            assert(after.map =~= self.map);
        }
    }
}

/// A key that can be compared with another key by what it stands for.
pub trait Key: View + Sized {
    /// Whether both keys stand for the same value.
    fn same(&self, other: &Self) -> (r: bool)
        ensures
            r == (self@ == other@),
    ;
}

impl Key for String {
    fn same(&self, other: &Self) -> (r: bool) {
        *self == *other
    }
}

impl Key for u64 {
    fn same(&self, other: &Self) -> (r: bool) {
        *self == *other
    }
}

/// A map that is walked in the order in which its keys were first stored.
#[derive(Debug)]
pub struct Assoc<K: Key, V: View> {
    entries: Vec<(K, V)>,
}

impl<K: Key, V: View> View for Assoc<K, V> {
    type V = Dict<K::V, V::V>;

    closed spec fn view(&self) -> Dict<K::V, V::V> {
        dict_of(self.entries@)
    }
}

/// The keys of a list of entries.
pub open spec fn keys_of<K: View, V: View>(entries: Seq<(K, V)>) -> Seq<K::V> {
    Seq::new(entries.len(), |i: int| entries[i].0@)
}

/// The dictionary that a list of entries with distinct keys stands for.
pub open spec fn dict_of<K: View, V: View>(entries: Seq<(K, V)>) -> Dict<K::V, V::V> {
    Dict {
        map: Map::new(
            |k: K::V| keys_of(entries).contains(k),
            |k: K::V| entries[keys_of(entries).index_of(k)].1@,
        ),
        keys: keys_of(entries),
    }
}

/// With distinct keys, each entry is found under its own key.
pub proof fn lemma_dict_of_entry<K: View, V: View>(entries: Seq<(K, V)>, i: int)
    requires
        dict_of(entries).wf(),
        0 <= i < entries.len(),
    ensures
        dict_of(entries).map.contains_key(entries[i].0@),
        dict_of(entries).map[entries[i].0@] == entries[i].1@,
        keys_of(entries).index_of(entries[i].0@) == i,
{
    let keys = keys_of(entries);
    assert(keys[i] == entries[i].0@);
    assert(keys.contains(entries[i].0@));
}

impl<K: Key, V: View> Assoc<K, V> {
    /// The keys are distinct.
    pub open spec fn wf(self) -> bool {
        self@.wf()
    }

    /// The entries in order.
    pub closed spec fn entries(self) -> Seq<(K, V)> {
        self.entries@
    }

    /// What the map holds, from its entries.
    pub proof fn lemma_view(self)
        ensures
            self@ == dict_of(self.entries()),
    {
    }

    /// Creates an empty map.
    pub fn new() -> (r: Self)
        ensures
            r@ == Dict::<K::V, V::V>::empty(),
            r.wf(),
    {
        let r = Assoc { entries: Vec::new() };
        assert(r@ =~= Dict::<K::V, V::V>::empty());
        r
    }

    /// The number of entries.
    pub fn len(&self) -> (r: usize)
        ensures
            r == self@.keys.len(),
            r == self.entries().len(),
    {
        self.entries.len()
    }

    /// The entry at a position.
    pub fn at(&self, i: usize) -> (r: (&K, &V))
        requires
            self.wf(),
            i < self@.keys.len(),
        ensures
            *r.0 == self.entries()[i as int].0,
            *r.1 == self.entries()[i as int].1,
            r.0@ == self@.keys[i as int],
            self@.map.contains_key(r.0@),
            r.1@ == self@.map[r.0@],
    {
        proof {
            lemma_dict_of_entry(self.entries@, i as int);
        }
        let e = &self.entries[i];
        (&e.0, &e.1)
    }

    /// Where the key `k` stands, if it does.
    pub fn position(&self, k: &K) -> (r: Option<usize>)
        ensures
            match r {
                Some(i) => i < self@.keys.len() && self@.keys[i as int] == k@,
                None => !self@.keys.contains(k@),
            },
    {
        for i in 0..self.entries.len()
            invariant
                forall|j: int| 0 <= j < i ==> #[trigger] self@.keys[j] != k@,
        {
            if self.entries[i].0.same(k) {
                return Some(i);
            }
        }
        None
    }

    /// The value under the key `k`, if there is one.
    pub fn get(&self, k: &K) -> (r: Option<&V>)
        requires
            self.wf(),
        ensures
            match r {
                Some(v) => self@.get(k@) == Some(v@),
                None => self@.get(k@) is None,
            },
    {
        match self.position(k) {
            Some(i) => Some(self.at(i).1),
            None => {
                assert(!self@.map.contains_key(k@));
                None
            },
        }
    }

    /// The value under the key `k`, if there is one, to be changed.
    pub fn get_mut(&mut self, k: &K) -> (r: Option<&mut V>)
        requires
            old(self).wf(),
        ensures
            match r {
                Some(v) => {
                    &&& old(self)@.get(k@) == Some(v@)
                    &&& final(self)@ == old(self)@.put(k@, final(v)@)
                    &&& final(self).wf()
                },
                None => old(self)@.get(k@) is None && *final(self) == *old(self),
            },
    {
        match self.position(k) {
            Some(i) => Some(self.at_mut(i)),
            None => {
                assert(!self@.map.contains_key(k@));
                None
            },
        }
    }

    /// The value at a position, to be changed.
    pub fn at_mut(&mut self, i: usize) -> (r: &mut V)
        requires
            old(self).wf(),
            i < old(self)@.keys.len(),
        ensures
            old(self)@.get(old(self)@.keys[i as int]) == Some(r@),
            final(self)@ == old(self)@.put(old(self)@.keys[i as int], final(r)@),
            final(self).wf(),
    {
        let ghost before = self.entries@;
        proof {
            lemma_dict_of_entry(before, i as int);
        }
        proof {
            assert forall|v: V| dict_of(#[trigger] before.update(i as int, (before[i as int].0, v)))
                == dict_of(before).put(before[i as int].0@, v@) by {
                lemma_replace_value(before, i as int, v);
            }
        }
        &mut self.entries[i].1
    }

    /// Stores `v` under `k` and hands back the value that was there before, if any.
    pub fn insert(&mut self, k: K, v: V) -> (r: Option<V>)
        requires
            old(self).wf(),
        ensures
            final(self)@ == old(self)@.put(k@, v@),
            final(self).wf(),
            match r {
                Some(w) => old(self)@.get(k@) == Some(w@),
                None => old(self)@.get(k@) is None,
            },
    {
        match self.position(&k) {
            Some(i) => {
                let mut w = v;
                let slot = self.at_mut(i);
                std::mem::swap(slot, &mut w);
                Some(w)
            },
            None => {
                proof {
                    lemma_push(self.entries@, k, v);
                }
                self.entries.push((k, v));
                None
            },
        }
    }

    /// Takes out the entry at a position.
    pub fn remove_at(&mut self, i: usize) -> (r: (K, V))
        requires
            old(self).wf(),
            i < old(self)@.keys.len(),
        ensures
            r.0@ == old(self)@.keys[i as int],
            old(self)@.get(r.0@) == Some(r.1@),
            final(self)@ == old(self)@.without(r.0@),
            final(self)@.keys == old(self)@.keys.remove(i as int),
            final(self).wf(),
    {
        proof {
            lemma_remove(self.entries@, i as int);
            lemma_dict_of_entry(self.entries@, i as int);
        }
        self.entries.remove(i)
    }

    /// Takes out the entry with the key `k` and hands back its value, if there is one.
    pub fn remove(&mut self, k: &K) -> (r: Option<V>)
        requires
            old(self).wf(),
        ensures
            final(self)@ == old(self)@.without(k@),
            final(self).wf(),
            match r {
                Some(w) => old(self)@.get(k@) == Some(w@),
                None => old(self)@.get(k@) is None,
            },
    {
        match self.position(k) {
            Some(i) => Some(self.remove_at(i).1),
            None => {
                assert(self@.map.remove(k@) =~= self@.map);
                None
            },
        }
    }

    /// The map with these entries.
    pub fn from_entries(entries: Vec<(K, V)>) -> (r: Self)
        requires
            dict_of(entries@).wf(),
        ensures
            r@ == dict_of(entries@),
            r.wf(),
            r.entries() == entries@,
    {
        Assoc { entries }
    }

    /// The entries in order.
    pub fn into_entries(self) -> (r: Vec<(K, V)>)
        ensures
            r@ == self.entries(),
            dict_of(r@) == self@,
    {
        self.entries
    }
}

/// Entries with equal keys and equal values stand for the same dictionary.
pub proof fn lemma_same_dict<K: View, V: View, L: View<V = K::V>, W: View<V = V::V>>(
    e1: Seq<(K, V)>,
    e2: Seq<(L, W)>,
)
    requires
        e1.len() == e2.len(),
        forall|i: int|
            #![trigger e1[i]]
            #![trigger e2[i]]
            0 <= i < e1.len() ==> e1[i].0@ == e2[i].0@ && e1[i].1@ == e2[i].1@,
    ensures
        dict_of(e1) == dict_of(e2),
{
    assert(keys_of(e1) =~= keys_of(e2));
    assert forall|x: K::V| keys_of(e1).contains(x) implies #[trigger] dict_of(e1).map[x] == dict_of(
        e2,
    ).map[x] by {
        let j = keys_of(e1).index_of(x);
        assert(e1[j].1@ == e2[j].1@);
    }
    assert(dict_of(e1).map =~= dict_of(e2).map);
}

/// Appending an entry with a new key stores its value under that key.
pub proof fn lemma_push<K: View, V: View>(entries: Seq<(K, V)>, k: K, v: V)
    requires
        dict_of(entries).wf(),
        !keys_of(entries).contains(k@),
    ensures
        dict_of(entries.push((k, v))) == dict_of(entries).put(k@, v@),
        dict_of(entries.push((k, v))).wf(),
{
    let after = entries.push((k, v));
    let keys = keys_of(entries);
    assert(keys_of(after) =~= keys.push(k@));
    assert(keys_of(after)[entries.len() as int] == k@);
    assert(keys_of(after).no_duplicates()) by {
        assert forall|i: int, j: int|
            0 <= i < keys.len() + 1 && 0 <= j < keys.len() + 1 && i != j implies keys_of(after)[i]
            != keys_of(after)[j] by {
            if i == keys.len() && j < keys.len() {
                assert(keys.contains(keys[j]));
            }
            if j == keys.len() && i < keys.len() {
                assert(keys.contains(keys[i]));
            }
        }
    }
    assert(dict_of(after).wf());
    assert forall|x: K::V| keys_of(after).contains(x) implies #[trigger] dict_of(after).map[x]
        == dict_of(entries).put(k@, v@).map[x] by {
        let j = keys_of(after).index_of(x);
        assert(keys_of(after)[j] == x);
        lemma_dict_of_entry(after, j);
        if j < entries.len() {
            lemma_dict_of_entry(entries, j);
            assert(keys.contains(x));
        }
    }
    assert forall|x: K::V| keys_of(after).contains(x) <==> dict_of(entries).put(
        k@,
        v@,
    ).map.contains_key(x) by {
        if keys.contains(x) {
            let j = keys.index_of(x);
            assert(keys_of(after)[j] == x);
        }
    }
    assert(dict_of(after).map =~= dict_of(entries).put(k@, v@).map);
    assert(dict_of(after) =~= dict_of(entries).put(k@, v@));
}

/// Taking out an entry takes out its key.
pub proof fn lemma_remove<K: View, V: View>(entries: Seq<(K, V)>, i: int)
    requires
        dict_of(entries).wf(),
        0 <= i < entries.len(),
    ensures
        dict_of(entries.remove(i)) == dict_of(entries).without(entries[i].0@),
        dict_of(entries.remove(i)).wf(),
        dict_of(entries.remove(i)).keys == dict_of(entries).keys.remove(i),
{
    let after = entries.remove(i);
    let keys = keys_of(entries);
    let k = entries[i].0@;
    lemma_dict_of_entry(entries, i);
    assert(keys_of(after) =~= keys.remove(i));
    assert(keys_of(after).no_duplicates());
    assert(dict_of(after).wf());
    assert forall|x: K::V| keys_of(after).contains(x) implies #[trigger] dict_of(after).map[x]
        == dict_of(entries).map[x] && x != k by {
        let j = keys_of(after).index_of(x);
        assert(keys_of(after)[j] == x);
        lemma_dict_of_entry(after, j);
        let m = if j < i { j } else { j + 1 };
        assert(keys[m] == x);
        lemma_dict_of_entry(entries, m);
    }
    assert forall|x: K::V| keys_of(after).contains(x) <==> keys.contains(x) && x != k by {
        if keys.contains(x) && x != k {
            let m = keys.index_of(x);
            assert(keys[m] == x);
            let j = if m < i { m } else { m - 1 };
            assert(keys_of(after)[j] == x);
        }
    }
    assert(dict_of(after).map =~= dict_of(entries).without(k).map);
    assert(dict_of(after) =~= dict_of(entries).without(k));
}

/// Replacing the value of an entry stores the new value under the entry's key.
pub proof fn lemma_replace_value<K: View, V: View>(entries: Seq<(K, V)>, i: int, v: V)
    requires
        dict_of(entries).wf(),
        0 <= i < entries.len(),
    ensures
        dict_of(entries.update(i, (entries[i].0, v))) == dict_of(entries).put(entries[i].0@, v@),
{
    let after = entries.update(i, (entries[i].0, v));
    assert(keys_of(after) =~= keys_of(entries));
    let k = entries[i].0@;
    assert(keys_of(entries)[i] == k);
    assert forall|x: K::V| keys_of(entries).contains(x) implies #[trigger] dict_of(after).map[x]
        == dict_of(entries).put(k, v@).map[x] by {
        let j = keys_of(entries).index_of(x);
        assert(keys_of(entries)[j] == x);
        lemma_dict_of_entry(entries, j);
        if j == i {
            assert(x == k);
        }
    }
    assert(dict_of(after).map =~= dict_of(entries).put(k, v@).map);
    assert(dict_of(after) =~= dict_of(entries).put(k, v@));
}

} // verus!
