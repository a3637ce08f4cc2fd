//! A finite map kept as a list of distinct entries, and a finite set kept the
//! same way.
//!
//! Keys are compared with [`Same`], so a lookup goes by what a key means. The
//! entries stand in the order in which their keys first came in; nothing but
//! that order tells two tables with the same view apart.

use crate::data::{Dup, Same};
use vstd::prelude::*;

verus! {

/// A finite map from keys to values.
pub struct Table<K: Same, V: DeepView> {
    entries: Vec<(K, V)>,
}

/// Whether no two entries have keys that mean the same thing.
pub open spec fn distinct_keys<K: DeepView, V>(entries: Seq<(K, V)>) -> bool {
    forall|i: int, j: int|
        0 <= i < j < entries.len() ==> (#[trigger] entries[i]).0.deep_view() != (
        #[trigger] entries[j]).0.deep_view()
}

/// Whether the entry at `i` is the one for `k`.
pub open spec fn holds_key<K: DeepView, V>(entries: Seq<(K, V)>, i: int, k: K::V) -> bool {
    0 <= i < entries.len() && entries[i].0.deep_view() == k
}

/// Whether some entry is the one for `k`.
pub open spec fn has_key<K: DeepView, V>(entries: Seq<(K, V)>, k: K::V) -> bool {
    exists|i: int| holds_key(entries, i, k)
}

/// The map that a list of entries stands for.
pub open spec fn entry_map<K: DeepView, V: DeepView>(entries: Seq<(K, V)>) -> Map<K::V, V::V> {
    Map::new(
        |k: K::V| has_key(entries, k),
        |k: K::V| entries[choose|i: int| holds_key(entries, i, k)].1.deep_view(),
    )
}

/// With distinct keys, an entry decides what its key maps to.
proof fn lemma_entry<K: DeepView, V: DeepView>(entries: Seq<(K, V)>, i: int, k: K::V)
    requires
        distinct_keys(entries),
        holds_key(entries, i, k),
    ensures
        has_key(entries, k),
        entry_map(entries).contains_key(k),
        entry_map(entries)[k] == entries[i].1.deep_view(),
{
    let c = choose|j: int| holds_key(entries, j, k);
    assert(holds_key(entries, c, k));
    assert(c == i);
}

/// Replacing the value of an entry replaces it in the map.
proof fn lemma_update<K: DeepView, V: DeepView>(entries: Seq<(K, V)>, i: int, key: K, value: V)
    requires
        distinct_keys(entries),
        holds_key(entries, i, key.deep_view()),
    ensures
        distinct_keys(entries.update(i, (key, value))),
        entry_map(entries.update(i, (key, value))) == entry_map(entries).insert(
            key.deep_view(),
            value.deep_view(),
        ),
{
    let after = entries.update(i, (key, value));
    let m = entry_map(entries).insert(key.deep_view(), value.deep_view());
    assert forall|k: K::V| #[trigger] m.contains_key(k) implies entry_map(after).contains_key(k)
        && entry_map(after)[k] == m[k] by {
        if k == key.deep_view() {
            lemma_entry(after, i, k);
        } else {
            let j = choose|j: int| holds_key(entries, j, k);
            lemma_entry(entries, j, k);
            lemma_entry(after, j, k);
        }
    }
    assert forall|k: K::V| #[trigger] entry_map(after).contains_key(k) implies m.contains_key(
        k,
    ) by {
        let j = choose|j: int| holds_key(after, j, k);
        assert(holds_key(entries, j, k));
    }
    assert(entry_map(after) =~= m);
}

/// Adding an entry with a new key adds it to the map.
proof fn lemma_push<K: DeepView, V: DeepView>(entries: Seq<(K, V)>, key: K, value: V)
    requires
        distinct_keys(entries),
        !has_key(entries, key.deep_view()),
    ensures
        distinct_keys(entries.push((key, value))),
        entry_map(entries.push((key, value))) == entry_map(entries).insert(
            key.deep_view(),
            value.deep_view(),
        ),
{
    let after = entries.push((key, value));
    let m = entry_map(entries).insert(key.deep_view(), value.deep_view());
    assert forall|a: int, b: int| 0 <= a < b < after.len() implies (
    #[trigger] after[a]).0.deep_view() != (#[trigger] after[b]).0.deep_view() by {
        if b == entries.len() {
            assert(!holds_key(entries, a, key.deep_view()));
        }
    }
    assert forall|k: K::V| #[trigger] m.contains_key(k) implies entry_map(after).contains_key(k)
        && entry_map(after)[k] == m[k] by {
        if k == key.deep_view() {
            lemma_entry(after, entries.len() as int, k);
        } else {
            let j = choose|j: int| holds_key(entries, j, k);
            lemma_entry(entries, j, k);
            lemma_entry(after, j, k);
        }
    }
    assert forall|k: K::V| #[trigger] entry_map(after).contains_key(k) implies m.contains_key(
        k,
    ) by {
        let j = choose|j: int| holds_key(after, j, k);
        if j < entries.len() {
            assert(holds_key(entries, j, k));
        }
    }
    assert(entry_map(after) =~= m);
}

/// Taking an entry out takes its key out of the map.
proof fn lemma_take_out<K: DeepView, V: DeepView>(entries: Seq<(K, V)>, i: int, k0: K::V)
    requires
        distinct_keys(entries),
        holds_key(entries, i, k0),
    ensures
        distinct_keys(entries.remove(i)),
        entry_map(entries.remove(i)) == entry_map(entries).remove(k0),
{
    let after = entries.remove(i);
    let m = entry_map(entries).remove(k0);
    assert forall|a: int, b: int| 0 <= a < b < after.len() implies (
    #[trigger] after[a]).0.deep_view() != (#[trigger] after[b]).0.deep_view() by {
        let a2 = if a < i { a } else { a + 1 };
        let b2 = if b < i { b } else { b + 1 };
        assert(entries[a2].0.deep_view() != entries[b2].0.deep_view());
    }
    assert forall|k: K::V| #[trigger] m.contains_key(k) implies entry_map(after).contains_key(k)
        && entry_map(after)[k] == m[k] by {
        let j = choose|j: int| holds_key(entries, j, k);
        lemma_entry(entries, j, k);
        let j2 = if j < i { j } else { j - 1 };
        assert(after[j2] == entries[j]);
        lemma_entry(after, j2, k);
    }
    assert forall|k: K::V| #[trigger] entry_map(after).contains_key(k) implies m.contains_key(
        k,
    ) by {
        let j = choose|j: int| holds_key(after, j, k);
        let j2 = if j < i { j } else { j + 1 };
        assert(after[j] == entries[j2]);
        assert(holds_key(entries, j2, k));
        assert(j2 != i);
        if k == k0 {
            lemma_entry(entries, i, k);
            assert(entries[j2].0.deep_view() == entries[i].0.deep_view());
        }
    }
    assert(entry_map(after) =~= m);
}

impl<K: Same, V: DeepView> DeepView for Table<K, V> {
    type V = Map<K::V, V::V>;

    closed spec fn deep_view(&self) -> Map<K::V, V::V> {
        entry_map(self.entries@)
    }
}

impl<K: Same, V: DeepView> View for Table<K, V> {
    type V = Map<K::V, V::V>;

    open spec fn view(&self) -> Map<K::V, V::V> {
        self.deep_view()
    }
}

impl<K: Same, V: DeepView> Table<K, V> {
    #[verifier::type_invariant]
    spec fn inv(self) -> bool {
        distinct_keys(self.entries@)
    }

    /// The keys in the order in which the table lists them.
    pub closed spec fn keys(self) -> Seq<K::V> {
        Seq::new(self.entries@.len(), |i: int| self.entries@[i].0.deep_view())
    }

    pub fn new() -> (t: Self)
        ensures
            t@ == Map::<K::V, V::V>::empty(),
            t.keys() == Seq::<K::V>::empty(),
    {
        let t = Table { entries: Vec::new() };
        proof {
            assert(t@ =~= Map::<K::V, V::V>::empty());
        }
        t
    }

    /// The number of keys.
    pub fn len(&self) -> (n: usize)
        ensures
            n == self.keys().len(),
            self.keys().no_duplicates(),
            forall|k: K::V| #[trigger] self@.contains_key(k) <==> self.keys().contains(k),
            self@.dom() == self.keys().to_set(),
            self@.dom().finite(),
    {
        proof {
            use_type_invariant(self);
            broadcast use vstd::seq_lib::seq_to_set_is_finite;

            assert forall|k: K::V| #[trigger] self@.contains_key(k) implies self.keys().contains(
                k,
            ) by {
                let i = choose|i: int| holds_key(self.entries@, i, k);
                assert(self.keys()[i] == k);
            }
            assert forall|k: K::V| self.keys().contains(k) implies #[trigger] self@.contains_key(
                k,
            ) by {
                let i = choose|i: int| 0 <= i < self.keys().len() && self.keys()[i] == k;
                assert(holds_key(self.entries@, i, k));
            }
            assert(self@.dom() =~= self.keys().to_set());
        }
        self.entries.len()
    }

    /// The position of a key.
    fn position(&self, key: &K) -> (r: Option<usize>)
        ensures
            match r {
                Some(i) => holds_key(self.entries@, i as int, key.deep_view()),
                None => forall|i: int| !holds_key(self.entries@, i, key.deep_view()),
            },
    {
        let mut i: usize = 0;
        while i < self.entries.len()
            invariant
                i <= self.entries.len(),
                forall|j: int| 0 <= j < i ==> !holds_key(self.entries@, j, key.deep_view()),
            decreases self.entries.len() - i,
        {
            if self.entries[i].0.same(key) {
                return Some(i);
            }
            i += 1;
        }
        None
    }

    /// The value stored under a key.
    pub fn get(&self, key: &K) -> (r: Option<&V>)
        ensures
            match r {
                Some(v) => self@.contains_key(key.deep_view()) && self@[key.deep_view()]
                    == v.deep_view(),
                None => !self@.contains_key(key.deep_view()),
            },
            r.deep_view() == self@.get(key.deep_view()),
    {
        proof {
            use_type_invariant(self);
        }
        match self.position(key) {
            Some(i) => {
                proof {
                    assert(holds_key(self.entries@, i as int, key.deep_view()));
                    let c = choose|j: int| holds_key(self.entries@, j, key.deep_view());
                    assert(c == i as int);
                }
                Some(&self.entries[i].1)
            },
            None => None,
        }
    }

    pub fn contains_key(&self, key: &K) -> (b: bool)
        ensures
            b == self@.contains_key(key.deep_view()),
    {
        self.get(key).is_some()
    }

    /// The key at a position of [`Table::keys`].
    pub fn key_at(&self, i: usize) -> (k: &K)
        requires
            i < self.keys().len(),
        ensures
            k.deep_view() == self.keys()[i as int],
            self@.contains_key(k.deep_view()),
    {
        let k = &self.entries[i].0;
        proof {
            assert(holds_key(self.entries@, i as int, k.deep_view()));
        }
        k
    }

    /// The value under the key at a position of [`Table::keys`].
    pub fn value_at(&self, i: usize) -> (v: &V)
        requires
            i < self.keys().len(),
        ensures
            self@.contains_key(self.keys()[i as int]),
            v.deep_view() == self@[self.keys()[i as int]],
    {
        proof {
            use_type_invariant(self);
            assert(holds_key(self.entries@, i as int, self.keys()[i as int]));
        }
        &self.entries[i].1
    }

    /// Stores a value, in place of the one that was there.
    pub fn insert(&mut self, key: K, value: V)
        ensures
            final(self)@ == old(self)@.insert(key.deep_view(), value.deep_view()),
    {
        proof {
            use_type_invariant(&*self);
        }
        let at = self.position(&key);
        let mut entries: Vec<(K, V)> = Vec::new();
        std::mem::swap(&mut entries, &mut self.entries);
        match at {
            Some(i) => {
                proof {
                    lemma_update(entries@, i as int, key, value);
                }
                entries.set(i, (key, value));
            },
            None => {
                proof {
                    lemma_push(entries@, key, value);
                }
                entries.push((key, value));
            },
        }
        self.entries = entries;
    }

    /// Takes a key and its value out.
    pub fn remove(&mut self, key: &K) -> (r: Option<V>)
        ensures
            final(self)@ == old(self)@.remove(key.deep_view()),
            match r {
                Some(v) => old(self)@.contains_key(key.deep_view()) && old(self)@[key.deep_view()]
                    == v.deep_view(),
                None => !old(self)@.contains_key(key.deep_view()),
            },
    {
        proof {
            use_type_invariant(&*self);
        }
        match self.position(key) {
            Some(i) => {
                let mut entries: Vec<(K, V)> = Vec::new();
                std::mem::swap(&mut entries, &mut self.entries);
                proof {
                    lemma_take_out(entries@, i as int, key.deep_view());
                    lemma_entry(entries@, i as int, key.deep_view());
                }
                let gone = entries.remove(i);
                self.entries = entries;
                Some(gone.1)
            },
            None => {
                proof {
                    assert(self@ =~= self@.remove(key.deep_view()));
                }
                None
            },
        }
    }
}

impl<K: Same + Dup, V: Dup> Dup for Table<K, V> {
    fn dup(&self) -> (r: Self) {
        let mut out: Table<K, V> = Table::new();
        let n: usize = self.len();
        let mut i: usize = 0;
        while i < n
            invariant
                i <= n,
                n == self.keys().len(),
                self.keys().no_duplicates(),
                forall|k: K::V| #[trigger] out@.contains_key(k) <==> self.keys().take(
                    i as int,
                ).contains(k),
                forall|k: K::V| #[trigger] out@.contains_key(k) ==> out@[k] == self@[k],
            decreases n - i,
        {
            out.insert(self.key_at(i).dup(), self.value_at(i).dup());
            proof {
                crate::data::lemma_take_next(self.keys(), i as int);
            }
            i += 1;
        }
        proof {
            assert(self.keys().take(n as int) =~= self.keys());
        }
        let m: usize = self.len();
        proof {
            assert(out@ =~= self@);
        }
        out
    }
}

/// A finite set of keys.
pub struct KeySet<K: Same> {
    table: Table<K, ()>,
}

impl<K: Same> DeepView for KeySet<K> {
    type V = Set<K::V>;

    closed spec fn deep_view(&self) -> Set<K::V> {
        self.table@.dom()
    }
}

impl<K: Same> View for KeySet<K> {
    type V = Set<K::V>;

    open spec fn view(&self) -> Set<K::V> {
        self.deep_view()
    }
}

impl<K: Same> KeySet<K> {
    /// The members in the order in which the set lists them.
    pub closed spec fn order(self) -> Seq<K::V> {
        self.table.keys()
    }

    pub fn new() -> (s: Self)
        ensures
            s@ == Set::<K::V>::empty(),
            s.order() == Seq::<K::V>::empty(),
    {
        let s = KeySet { table: Table::new() };
        proof {
            assert(s@ =~= Set::<K::V>::empty());
        }
        s
    }

    /// The number of members.
    pub fn len(&self) -> (n: usize)
        ensures
            n == self.order().len(),
            self.order().no_duplicates(),
            self@ == self.order().to_set(),
            self@.finite(),
            forall|k: K::V| #[trigger] self@.contains(k) <==> self.order().contains(k),
    {
        let n: usize = self.table.len();
        proof {
            assert forall|k: K::V| #[trigger] self@.contains(k) <==> self.order().contains(k) by {
                assert(self@.contains(k) == self.table@.contains_key(k));
            }
        }
        n
    }

    pub fn is_empty(&self) -> (b: bool)
        ensures
            b == (self@ == Set::<K::V>::empty()),
    {
        let n: usize = self.len();
        proof {
            if n == 0 {
                assert(self@ =~= Set::<K::V>::empty());
            } else {
                assert(self.order().contains(self.order()[0]));
                assert(self@.contains(self.order()[0]));
            }
        }
        n == 0
    }

    pub fn contains(&self, key: &K) -> (b: bool)
        ensures
            b == self@.contains(key.deep_view()),
    {
        self.table.contains_key(key)
    }

    /// The member at a position of [`KeySet::order`].
    pub fn at(&self, i: usize) -> (k: &K)
        requires
            i < self.order().len(),
        ensures
            k.deep_view() == self.order()[i as int],
            self@.contains(k.deep_view()),
    {
        self.table.key_at(i)
    }

    pub fn insert(&mut self, key: K)
        ensures
            final(self)@ == old(self)@.insert(key.deep_view()),
    {
        let ghost kv = key.deep_view();
        self.table.insert(key, ());
        proof {
            assert(self@ =~= old(self)@.insert(kv));
        }
    }

    /// Takes a member out; tells whether it was there.
    pub fn remove(&mut self, key: &K) -> (b: bool)
        ensures
            final(self)@ == old(self)@.remove(key.deep_view()),
            b == old(self)@.contains(key.deep_view()),
    {
        let gone = self.table.remove(key);
        proof {
            assert(self@ =~= old(self)@.remove(key.deep_view()));
        }
        gone.is_some()
    }
}

impl<K: Same + Dup> Dup for KeySet<K> {
    fn dup(&self) -> (r: Self) {
        KeySet { table: self.table.dup() }
    }
}

/// The entries of `m`, and those of `o` for keys that `m` does not have.
pub open spec fn filled<K, V>(m: Map<K, V>, o: Map<K, V>) -> Map<K, V> {
    o.union_prefer_right(m)
}

/// The list under a key, empty where there is none.
pub open spec fn list_at<K, V>(m: Map<K, Seq<V>>, k: K) -> Seq<V> {
    if m.contains_key(k) {
        m[k]
    } else {
        Seq::empty()
    }
}

/// The map under a key, empty where there is none.
pub open spec fn map_at<K, L, V>(m: Map<K, Map<L, V>>, k: K) -> Map<L, V> {
    if m.contains_key(k) {
        m[k]
    } else {
        Map::empty()
    }
}

/// The lists of `m`, each followed by that of `o`.
pub open spec fn appended<K, V>(m: Map<K, Seq<V>>, o: Map<K, Seq<V>>) -> Map<K, Seq<V>> {
    Map::new(
        |k: K| m.contains_key(k) || o.contains_key(k),
        |k: K| list_at(m, k) + list_at(o, k),
    )
}

/// The inner maps of `m`, each filled up from that of `o`.
pub open spec fn inner_filled<K, L, V>(
    m: Map<K, Map<L, V>>,
    o: Map<K, Map<L, V>>,
) -> Map<K, Map<L, V>> {
    Map::new(
        |k: K| m.contains_key(k) || o.contains_key(k),
        |k: K| filled(map_at(m, k), map_at(o, k)),
    )
}

/// The inner maps of `m`, with the lists of `o` appended.
pub open spec fn inner_appended<K, L, V>(
    m: Map<K, Map<L, Seq<V>>>,
    o: Map<K, Map<L, Seq<V>>>,
) -> Map<K, Map<L, Seq<V>>> {
    Map::new(
        |k: K| m.contains_key(k) || o.contains_key(k),
        |k: K| appended(map_at(m, k), map_at(o, k)),
    )
}

/// Appends a list to another.
pub fn append_copies<V: Dup>(list: &mut Vec<V>, more: &Vec<V>)
    ensures
        final(list).deep_view() == old(list).deep_view() + more.deep_view(),
{
    let ghost start = list.deep_view();
    let mut i: usize = 0;
    while i < more.len()
        invariant
            i <= more.len(),
            list.deep_view() == start + more.deep_view().take(i as int),
        decreases more.len() - i,
    {
        let ghost before = list@;
        assert(list.deep_view().len() == before.len());
        let item = more[i].dup();
        list.push(item);
        proof {
            assert(list.deep_view() =~= start + more.deep_view().take(i as int + 1)) by {
                let have = list.deep_view();
                let want = start + more.deep_view().take(i as int + 1);
                let prev = start + more.deep_view().take(i as int);
                assert(have.len() == want.len());
                assert forall|j: int| 0 <= j < have.len() implies have[j] == want[j] by {
                    if j < before.len() {
                        assert(before[j].deep_view() == prev[j]);
                    }
                }
            }
        }
        i += 1;
    }
    proof {
        assert(more.deep_view().take(more.len() as int) =~= more.deep_view());
    }
}

impl<K: Same + Dup, V: Dup> Table<K, V> {
    /// Takes over the entries of another table for keys that are not there yet.
    pub fn fill_from(&mut self, other: &Table<K, V>)
        ensures
            final(self)@ == filled(old(self)@, other@),
    {
        let ghost m = self@;
        let n: usize = other.len();
        let mut i: usize = 0;
        while i < n
            invariant
                i <= n,
                n == other.keys().len(),
                forall|k: K::V| #[trigger]
                    self@.contains_key(k) <==> m.contains_key(k) || other.keys().take(
                        i as int,
                    ).contains(k),
                forall|k: K::V| #[trigger]
                    self@.contains_key(k) ==> self@[k] == (if m.contains_key(k) {
                        m[k]
                    } else {
                        other@[k]
                    }),
            decreases n - i,
        {
            let key = other.key_at(i);
            proof {
                crate::data::lemma_take_next(other.keys(), i as int);
            }
            if !self.contains_key(key) {
                self.insert(key.dup(), other.value_at(i).dup());
            }
            i += 1;
        }
        proof {
            assert(other.keys().take(n as int) =~= other.keys());
        }
        let again: usize = other.len();
        proof {
            assert(self@ =~= filled(m, other@));
        }
    }
}

impl<K: Same, V: DeepView> Table<K, Vec<V>> {
    /// Appends a value to the list under a key.
    pub fn push_at(&mut self, key: K, value: V)
        ensures
            final(self)@ == old(self)@.insert(
                key.deep_view(),
                list_at(old(self)@, key.deep_view()).push(value.deep_view()),
            ),
    {
        let ghost m = self@;
        let ghost kv = key.deep_view();
        let mut list = match self.remove(&key) {
            Some(list) => list,
            None => Vec::new(),
        };
        let ghost before = list@;
        proof {
            assert(list.deep_view() =~= list_at(m, kv));
        }
        list.push(value);
        proof {
            assert forall|j: int| 0 <= j < before.len() implies (#[trigger] list@[j]).deep_view()
                == list_at(m, kv)[j] by {
                assert(before[j].deep_view() == list_at(m, kv)[j]);
            }
            assert(list.deep_view() =~= list_at(m, kv).push(value.deep_view()));
        }
        self.insert(key, list);
        proof {
            assert(self@ =~= m.insert(kv, list_at(m, kv).push(value.deep_view())));
        }
    }
}

impl<K: Same + Dup, V: Dup> Table<K, Vec<V>> {
    /// Appends the lists of another table.
    pub fn append_from(&mut self, other: &Table<K, Vec<V>>)
        ensures
            final(self)@ == appended(old(self)@, other@),
    {
        let ghost m = self@;
        let n: usize = other.len();
        let mut i: usize = 0;
        while i < n
            invariant
                i <= n,
                n == other.keys().len(),
                other.keys().no_duplicates(),
                forall|k: K::V| #[trigger]
                    self@.contains_key(k) <==> m.contains_key(k) || other.keys().take(
                        i as int,
                    ).contains(k),
                forall|k: K::V| #[trigger]
                    self@.contains_key(k) ==> self@[k] == (if other.keys().take(i as int).contains(
                        k,
                    ) {
                        list_at(m, k) + other@[k]
                    } else {
                        m[k]
                    }),
            decreases n - i,
        {
            let key = other.key_at(i);
            let ghost before = self@;
            let ghost kv = other.keys()[i as int];
            proof {
                crate::data::lemma_take_next(other.keys(), i as int);
            }
            let mut list = match self.remove(key) {
                Some(list) => list,
                None => Vec::new(),
            };
            proof {
                assert(list.deep_view() =~= list_at(m, kv));
            }
            append_copies(&mut list, other.value_at(i));
            self.insert(key.dup(), list);
            proof {
                assert(self@ =~= before.insert(kv, list_at(m, kv) + other@[kv]));
            }
            i += 1;
        }
        proof {
            assert(other.keys().take(n as int) =~= other.keys());
        }
        let again: usize = other.len();
        proof {
            assert forall|k: K::V| #[trigger] self@.contains_key(k) implies self@[k] == appended(
                m,
                other@,
            )[k] by {
                if !other@.contains_key(k) {
                    assert(m[k] + Seq::<V::V>::empty() =~= m[k]);
                }
            }
            assert(self@ =~= appended(m, other@));
        }
    }
}

impl<K: Same, L: Same, V: DeepView> Table<K, Table<L, V>> {
    /// Stores a value in the table under a key.
    pub fn insert_at(&mut self, key: K, inner: L, value: V)
        ensures
            final(self)@ == old(self)@.insert(
                key.deep_view(),
                map_at(old(self)@, key.deep_view()).insert(inner.deep_view(), value.deep_view()),
            ),
    {
        let ghost m = self@;
        let mut table = match self.remove(&key) {
            Some(table) => table,
            None => Table::new(),
        };
        table.insert(inner, value);
        let ghost kv = key.deep_view();
        let ghost tv = table@;
        self.insert(key, table);
        proof {
            assert(self@ =~= m.insert(kv, tv));
        }
    }
}

impl<K: Same + Dup, L: Same + Dup, V: Dup> Table<K, Table<L, V>> {
    /// Fills up the inner tables from those of another table.
    pub fn fill_inner_from(&mut self, other: &Table<K, Table<L, V>>)
        ensures
            final(self)@ == inner_filled(old(self)@, other@),
    {
        let ghost m = self@;
        let n: usize = other.len();
        let mut i: usize = 0;
        while i < n
            invariant
                i <= n,
                n == other.keys().len(),
                other.keys().no_duplicates(),
                forall|k: K::V| #[trigger]
                    self@.contains_key(k) <==> m.contains_key(k) || other.keys().take(
                        i as int,
                    ).contains(k),
                forall|k: K::V| #[trigger]
                    self@.contains_key(k) ==> self@[k] == (if other.keys().take(i as int).contains(
                        k,
                    ) {
                        filled(map_at(m, k), other@[k])
                    } else {
                        m[k]
                    }),
            decreases n - i,
        {
            let key = other.key_at(i);
            let ghost before = self@;
            let ghost kv = other.keys()[i as int];
            proof {
                crate::data::lemma_take_next(other.keys(), i as int);
            }
            let mut table = match self.remove(key) {
                Some(table) => table,
                None => Table::new(),
            };
            proof {
                assert(table@ =~= map_at(m, kv));
            }
            table.fill_from(other.value_at(i));
            self.insert(key.dup(), table);
            proof {
                assert(self@ =~= before.insert(kv, filled(map_at(m, kv), other@[kv])));
            }
            i += 1;
        }
        proof {
            assert(other.keys().take(n as int) =~= other.keys());
        }
        let again: usize = other.len();
        proof {
            assert forall|k: K::V| #[trigger] self@.contains_key(k) implies self@[k]
                == inner_filled(m, other@)[k] by {
                if !other@.contains_key(k) {
                    assert(filled(m[k], Map::<L::V, V::V>::empty()) =~= m[k]);
                }
            }
            assert(self@ =~= inner_filled(m, other@));
        }
    }
}

impl<K: Same + Dup, L: Same + Dup, V: Dup> Table<K, Table<L, Vec<V>>> {
    /// Appends the lists of the inner tables of another table.
    pub fn append_inner_from(&mut self, other: &Table<K, Table<L, Vec<V>>>)
        ensures
            final(self)@ == inner_appended(old(self)@, other@),
    {
        let ghost m = self@;
        let n: usize = other.len();
        let mut i: usize = 0;
        while i < n
            invariant
                i <= n,
                n == other.keys().len(),
                other.keys().no_duplicates(),
                forall|k: K::V| #[trigger]
                    self@.contains_key(k) <==> m.contains_key(k) || other.keys().take(
                        i as int,
                    ).contains(k),
                forall|k: K::V| #[trigger]
                    self@.contains_key(k) ==> self@[k] == (if other.keys().take(i as int).contains(
                        k,
                    ) {
                        appended(map_at(m, k), other@[k])
                    } else {
                        m[k]
                    }),
            decreases n - i,
        {
            let key = other.key_at(i);
            let ghost before = self@;
            let ghost kv = other.keys()[i as int];
            proof {
                crate::data::lemma_take_next(other.keys(), i as int);
            }
            let mut table = match self.remove(key) {
                Some(table) => table,
                None => Table::new(),
            };
            proof {
                assert(table@ =~= map_at(m, kv));
            }
            table.append_from(other.value_at(i));
            self.insert(key.dup(), table);
            proof {
                assert(self@ =~= before.insert(kv, appended(map_at(m, kv), other@[kv])));
            }
            i += 1;
        }
        proof {
            assert(other.keys().take(n as int) =~= other.keys());
        }
        let again: usize = other.len();
        proof {
            assert forall|k: K::V| #[trigger] self@.contains_key(k) implies self@[k]
                == inner_appended(m, other@)[k] by {
                if !other@.contains_key(k) {
                    let e = Map::<L::V, Seq<V::V>>::empty();
                    assert forall|l: L::V| #[trigger] m[k].contains_key(l) implies list_at(m[k], l)
                        + list_at(e, l) == m[k][l] by {
                        assert(m[k][l] + Seq::<V::V>::empty() =~= m[k][l]);
                    }
                    assert(appended(m[k], e) =~= m[k]);
                }
            }
            assert(self@ =~= inner_appended(m, other@));
        }
    }
}

} // verus!
