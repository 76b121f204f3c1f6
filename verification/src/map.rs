//! A keyed registry (`SlotMap`) whose bindings can be tied to an ownership
//! handle (`MapSlot`): releasing the handle evicts exactly the binding it was
//! minted for, even if the key has since been rebound to a newer value.
//!
//! Every binding carries a generation number drawn from a counter that only
//! grows, and a handle stores the generation it observed at creation, so a
//! stale handle (one whose binding has been replaced) releases nothing.

use vstd::prelude::*;

verus! {

/// A type that can be used as a key in a [`SlotMap`].
///
/// Lookups are specified over the key's abstract view (`@`), so the two
/// required methods must decide equality of views and copy a key without
/// changing its view.
pub trait Key: Sized + View + Clone + Eq + core::hash::Hash + core::fmt::Debug {
    /// Decides whether two keys stand for the same abstract key.
    fn key_eq(&self, other: &Self) -> (r: bool)
        ensures
            r == (self@ == other@),
    ;

    /// Copies a key; the copy stands for the same abstract key.
    fn key_clone(&self) -> (r: Self)
        ensures
            r@ == self@,
    ;
}

impl Key for u64 {
    fn key_eq(&self, other: &Self) -> (r: bool)
        ensures
            r == (self@ == other@),
    {
        *self == *other
    }

    fn key_clone(&self) -> (r: Self)
        ensures
            r@ == self@,
    {
        *self
    }
}

impl Key for u32 {
    fn key_eq(&self, other: &Self) -> (r: bool)
        ensures
            r == (self@ == other@),
    {
        *self == *other
    }

    fn key_clone(&self) -> (r: Self)
        ensures
            r@ == self@,
    {
        *self
    }
}

impl Key for usize {
    fn key_eq(&self, other: &Self) -> (r: bool)
        ensures
            r == (self@ == other@),
    {
        *self == *other
    }

    fn key_clone(&self) -> (r: Self)
        ensures
            r@ == self@,
    {
        *self
    }
}

impl Key for String {
    fn key_eq(&self, other: &Self) -> (r: bool)
        ensures
            r == (self@ == other@),
    {
        *self == *other
    }

    fn key_clone(&self) -> (r: Self)
        ensures
            r@ == self@,
    {
        self.clone()
    }
}

/// One abstract binding: the generation at which the key was last bound, and
/// the bound value.
pub ghost struct Binding<V> {
    pub gen: u64,
    pub value: V,
}

/// One stored entry: the key, its binding's generation, and the value.
struct Entry<K, V> {
    key: K,
    gen: u64,
    value: V,
}

/// A registry from keys to values in which each binding has a generation, so
/// that a [`MapSlot`] handle can later evict exactly the binding it was
/// minted for.
pub struct SlotMap<K: Key, V> {
    entries: Vec<Entry<K, V>>,
    next_gen: u64,
}

/// A handle associated with one binding of a [`SlotMap`]. Releasing it
/// removes that binding, and only that binding: if the key has since been
/// rebound (a newer generation), releasing the stale handle is a no-op.
pub struct MapSlot<K: Key> {
    key: K,
    gen: u64,
}

impl<K: Key> View for MapSlot<K> {
    type V = (<K as View>::V, u64);

    closed spec fn view(&self) -> (<K as View>::V, u64) {
        (self.key@, self.gen)
    }
}

/// Whether some entry of `s` binds the abstract key `k`.
spec fn dom_has<K: Key, V>(s: Seq<Entry<K, V>>, k: <K as View>::V) -> bool {
    exists|i: int| 0 <= i < s.len() && s[i].key@ == k
}

/// Whether no two entries of `s` bind the same abstract key.
spec fn keys_distinct<K: Key, V>(s: Seq<Entry<K, V>>) -> bool {
    forall|i: int, j: int| 0 <= i < j < s.len() ==> s[i].key@ != s[j].key@
}

/// Whether every generation stored in `s` lies below `bound`.
spec fn gens_below<K: Key, V>(s: Seq<Entry<K, V>>, bound: u64) -> bool {
    forall|i: int| 0 <= i < s.len() ==> (#[trigger] s[i]).gen < bound
}

/// The map of bindings described by the entries `s` (later entries win; under
/// `keys_distinct` the order does not matter).
spec fn entries_model<K: Key, V>(s: Seq<Entry<K, V>>) -> Map<<K as View>::V, Binding<V>>
    decreases s.len(),
{
    if s.len() == 0 {
        Map::empty()
    } else {
        entries_model(s.drop_last()).insert(
            s.last().key@,
            Binding { gen: s.last().gen, value: s.last().value },
        )
    }
}

/// The model's domain is exactly the set of keys bound by some entry.
broadcast proof fn lemma_model_dom<K: Key, V>(s: Seq<Entry<K, V>>, k: <K as View>::V)
    ensures
        #[trigger] entries_model(s).contains_key(k) <==> dom_has(s, k),
    decreases s.len(),
{
    if s.len() == 0 {
    } else {
        lemma_model_dom(s.drop_last(), k);
        if entries_model(s).contains_key(k) {
            if k == s.last().key@ {
                assert(s[s.len() - 1].key@ == k);
            } else {
                let i = choose|i: int| 0 <= i < s.drop_last().len() && s.drop_last()[i].key@ == k;
                assert(s[i].key@ == k);
            }
        }
        if dom_has(s, k) {
            let i = choose|i: int| 0 <= i < s.len() && s[i].key@ == k;
            if i < s.len() - 1 {
                assert(s.drop_last()[i].key@ == k);
            }
        }
    }
}

/// Under distinct keys, the entry at index `i` is the model's binding of its
/// key.
proof fn lemma_model_at<K: Key, V>(s: Seq<Entry<K, V>>, i: int)
    requires
        keys_distinct(s),
        0 <= i < s.len(),
    ensures
        entries_model(s).contains_key(s[i].key@),
        entries_model(s)[s[i].key@] == (Binding { gen: s[i].gen, value: s[i].value }),
    decreases s.len(),
{
    if i == s.len() - 1 {
    } else {
        assert(keys_distinct(s.drop_last()));
        lemma_model_at(s.drop_last(), i);
        assert(s.drop_last()[i] == s[i]);
        assert(s[i].key@ != s.last().key@);
    }
}

/// Updating the entry at `i` while keeping its key rebinds exactly that key.
broadcast proof fn lemma_model_update<K: Key, V>(s: Seq<Entry<K, V>>, i: int, e: Entry<K, V>)
    requires
        keys_distinct(s),
        0 <= i < s.len(),
        e.key@ == s[i].key@,
    ensures
        entries_model(#[trigger] s.update(i, e)) == entries_model(s).insert(
            e.key@,
            Binding { gen: e.gen, value: e.value },
        ),
        keys_distinct(s.update(i, e)),
    decreases s.len(),
{
    let s1 = s.update(i, e);
    assert(keys_distinct(s1));
    if i == s.len() - 1 {
        assert(s1.drop_last() =~= s.drop_last());
        assert(entries_model(s1) =~= entries_model(s).insert(
            e.key@,
            Binding { gen: e.gen, value: e.value },
        ));
    } else {
        assert(keys_distinct(s.drop_last()));
        assert(s.drop_last()[i] == s[i]);
        lemma_model_update(s.drop_last(), i, e);
        assert(s1.drop_last() =~= s.drop_last().update(i, e));
        assert(s1.last() == s.last());
        assert(e.key@ != s.last().key@);
        assert(entries_model(s1) =~= entries_model(s).insert(
            e.key@,
            Binding { gen: e.gen, value: e.value },
        ));
    }
}

/// Updating the entry at `i` with an entirely fresh key removes the old
/// binding and adds the new one.
proof fn lemma_model_update_fresh<K: Key, V>(s: Seq<Entry<K, V>>, i: int, e: Entry<K, V>)
    requires
        keys_distinct(s),
        0 <= i < s.len(),
        !dom_has(s, e.key@),
    ensures
        entries_model(s.update(i, e)) == entries_model(s).remove(s[i].key@).insert(
            e.key@,
            Binding { gen: e.gen, value: e.value },
        ),
        keys_distinct(s.update(i, e)),
    decreases s.len(),
{
    let s1 = s.update(i, e);
    assert forall|j: int| 0 <= j < s.len() && j != i implies s[j].key@ != e.key@ by {
        assert(!(s[j].key@ == e.key@));
    }
    assert(keys_distinct(s1));
    if i == s.len() - 1 {
        assert(s1.drop_last() =~= s.drop_last());
        assert(!entries_model(s.drop_last()).contains_key(s[i].key@)) by {
            lemma_model_dom(s.drop_last(), s[i].key@);
            if dom_has(s.drop_last(), s[i].key@) {
                let j = choose|j: int|
                    0 <= j < s.drop_last().len() && s.drop_last()[j].key@ == s[i].key@;
                assert(s[j].key@ == s[i].key@);
            }
        }
        assert(!entries_model(s.drop_last()).contains_key(e.key@)) by {
            lemma_model_dom(s.drop_last(), e.key@);
            if dom_has(s.drop_last(), e.key@) {
                let j = choose|j: int|
                    0 <= j < s.drop_last().len() && s.drop_last()[j].key@ == e.key@;
                assert(s[j].key@ == e.key@);
            }
        }
        assert(entries_model(s1) =~= entries_model(s).remove(s[i].key@).insert(
            e.key@,
            Binding { gen: e.gen, value: e.value },
        ));
    } else {
        assert(keys_distinct(s.drop_last()));
        assert(!dom_has(s.drop_last(), e.key@)) by {
            if dom_has(s.drop_last(), e.key@) {
                let j = choose|j: int|
                    0 <= j < s.drop_last().len() && s.drop_last()[j].key@ == e.key@;
                assert(s[j].key@ == e.key@);
            }
        }
        assert(s.drop_last()[i] == s[i]);
        lemma_model_update_fresh(s.drop_last(), i, e);
        assert(s1.drop_last() =~= s.drop_last().update(i, e));
        assert(s1.last() == s.last());
        assert(s[i].key@ != s.last().key@);
        assert(e.key@ != s.last().key@);
        assert(entries_model(s1) =~= entries_model(s).remove(s[i].key@).insert(
            e.key@,
            Binding { gen: e.gen, value: e.value },
        ));
    }
}

/// Removing the last entry removes its binding.
proof fn lemma_model_drop_last<K: Key, V>(s: Seq<Entry<K, V>>)
    requires
        keys_distinct(s),
        s.len() > 0,
    ensures
        entries_model(s.drop_last()) == entries_model(s).remove(s.last().key@),
{
    assert(!entries_model(s.drop_last()).contains_key(s.last().key@)) by {
        lemma_model_dom(s.drop_last(), s.last().key@);
        if dom_has(s.drop_last(), s.last().key@) {
            let j = choose|j: int|
                0 <= j < s.drop_last().len() && s.drop_last()[j].key@ == s.last().key@;
            assert(s[j].key@ == s.last().key@);
        }
    }
    assert(entries_model(s.drop_last()) =~= entries_model(s).remove(s.last().key@));
}

/// Re-inserting under the same key keeps only the later binding.
broadcast proof fn lemma_insert_insert<K2, V2>(m: Map<K2, V2>, k: K2, a: V2, b: V2)
    ensures
        #[trigger] m.insert(k, a).insert(k, b) == m.insert(k, b),
{
    assert(m.insert(k, a).insert(k, b) =~= m.insert(k, b));
}

/// Under distinct keys the model binds exactly as many keys as there are
/// entries.
proof fn lemma_model_len<K: Key, V>(s: Seq<Entry<K, V>>)
    requires
        keys_distinct(s),
    ensures
        entries_model(s).dom().finite(),
        entries_model(s).len() == s.len(),
    decreases s.len(),
{
    if s.len() == 0 {
        assert(entries_model(s).dom() =~= Set::<<K as View>::V>::empty());
    } else {
        assert(keys_distinct(s.drop_last()));
        lemma_model_len(s.drop_last());
        assert(!entries_model(s.drop_last()).contains_key(s.last().key@)) by {
            lemma_model_dom(s.drop_last(), s.last().key@);
            if dom_has(s.drop_last(), s.last().key@) {
                let j = choose|j: int|
                    0 <= j < s.drop_last().len() && s.drop_last()[j].key@ == s.last().key@;
                assert(s[j].key@ == s.last().key@);
            }
        }
    }
}

impl<K: Key, V> SlotMap<K, V> {
    /// The bindings held by the registry: for each bound abstract key, the
    /// generation of its current binding and the bound value.
    pub closed spec fn table(&self) -> Map<<K as View>::V, Binding<V>> {
        entries_model(self.entries@)
    }

    /// The next generation to be handed out; it only grows, and every stored
    /// generation lies below it.
    pub closed spec fn version(&self) -> u64 {
        self.next_gen
    }

    /// Well-formedness: keys are bound at most once, and all stored
    /// generations are in the past of the counter.
    pub closed spec fn wf(&self) -> bool {
        keys_distinct(self.entries@) && gens_below(self.entries@, self.next_gen)
    }

    /// Whether the generation counter can still mint a fresh generation;
    /// callers test this before operations that bind a key.
    pub fn can_mint(&self) -> (r: bool)
        ensures
            r == (self.version() < u64::MAX),
    {
        self.next_gen < u64::MAX
    }

    /// Creates an empty registry.
    pub fn new() -> (r: Self)
        ensures
            r.wf(),
            r.table() == Map::<<K as View>::V, Binding<V>>::empty(),
            r.version() == 0,
    {
        SlotMap { entries: Vec::new(), next_gen: 0u64 }
    }

    /// Finds the index of the entry binding `key`, if any.
    fn find(&self, key: &K) -> (r: Option<usize>)
        requires
            self.wf(),
        ensures
            match r {
                Some(i) => 0 <= i < self.entries@.len() && self.entries@[i as int].key@ == key@,
                None => !self.table().contains_key(key@),
            },
    {
        let mut i: usize = 0;
        while i < self.entries.len()
            invariant
                0 <= i <= self.entries@.len(),
                forall|j: int| 0 <= j < i ==> self.entries@[j].key@ != key@,
            decreases self.entries@.len() - i,
        {
            if self.entries[i].key.key_eq(key) {
                return Some(i);
            }
            i = i + 1;
        }
        proof {
            lemma_model_dom(self.entries@, key@);
        }
        None
    }

    /// Whether `key` is currently bound.
    pub fn contains(&self, key: &K) -> (r: bool)
        requires
            self.wf(),
        ensures
            r == self.table().contains_key(key@),
    {
        match self.find(key) {
            Some(i) => {
                proof {
                    lemma_model_at(self.entries@, i as int);
                }
                true
            },
            None => false,
        }
    }

    /// The number of bindings.
    pub fn len(&self) -> (r: usize)
        requires
            self.wf(),
        ensures
            r == self.table().len(),
    {
        proof {
            lemma_model_len(self.entries@);
        }
        self.entries.len()
    }

    /// Whether the registry holds no binding at all.
    pub fn is_empty(&self) -> (r: bool)
        requires
            self.wf(),
        ensures
            r == (self.table().len() == 0),
    {
        proof {
            lemma_model_len(self.entries@);
        }
        self.entries.len() == 0
    }

    /// Gets a reference to the value bound to `key`.
    pub fn get(&self, key: &K) -> (r: Option<&V>)
        requires
            self.wf(),
        ensures
            match r {
                Some(v) => self.table().contains_key(key@) && *v == self.table()[key@].value,
                None => !self.table().contains_key(key@),
            },
    {
        match self.find(key) {
            Some(i) => {
                proof {
                    lemma_model_at(self.entries@, i as int);
                }
                Some(&self.entries[i].value)
            },
            None => None,
        }
    }

    /// Gets a mutable reference to the value bound to `key`.
    ///
    /// Mutating through the reference rebinds `key` to the new value; the
    /// binding's generation is unchanged.
    pub fn get_mut(&mut self, key: &K) -> (r: &mut V)
        requires
            old(self).wf(),
            old(self).table().contains_key(key@),
        ensures
            *r == old(self).table()[key@].value,
            final(self).wf(),
            final(self).table() == old(self).table().insert(
                key@,
                Binding { gen: old(self).table()[key@].gen, value: *final(r) },
            ),
            final(self).version() == old(self).version(),
    {
        broadcast use lemma_model_update;

        match self.find(key) {
            Some(i) => {
                proof {
                    lemma_model_at(self.entries@, i as int);
                }
                let e = &mut self.entries[i];
                &mut e.value
            },
            None => vstd::pervasive::unreached(),
        }
    }

    /// Gets a mutable reference to the value bound to `key`, binding the
    /// result of `with` first if `key` is vacant.
    ///
    /// On a vacant key the constructor is called exactly once, and it is
    /// handed the fresh handle for the binding about to be made — before the
    /// value exists — so the value it builds can embed the means of evicting
    /// its own binding. On an occupied key the constructor is never called.
    pub fn get_or_insert<F: FnOnce(MapSlot<K>) -> V>(&mut self, key: K, with: F) -> (r: &mut V)
        requires
            old(self).wf(),
            old(self).version() < u64::MAX,
            forall|s: MapSlot<K>|
                s@ == (key@, old(self).version()) ==> #[trigger] call_requires(with, (s,)),
        ensures
            final(self).wf(),
            old(self).table().contains_key(key@) ==> {
                &&& *r == old(self).table()[key@].value
                &&& final(self).table() == old(self).table().insert(
                    key@,
                    Binding { gen: old(self).table()[key@].gen, value: *final(r) },
                )
                &&& final(self).version() == old(self).version()
            },
            !old(self).table().contains_key(key@) ==> {
                &&& (exists|s: MapSlot<K>|
                    s@ == (key@, old(self).version()) && call_ensures(with, (s,), *r))
                &&& final(self).table() == old(self).table().insert(
                    key@,
                    Binding { gen: old(self).version(), value: *final(r) },
                )
                &&& final(self).version() == old(self).version() + 1
            },
    {
        broadcast use lemma_model_update;
        broadcast use lemma_insert_insert;

        let ghost s0 = self.entries@;
        match self.find(&key) {
            Some(i) => {
                proof {
                    lemma_model_at(s0, i as int);
                }
                let e = &mut self.entries[i];
                &mut e.value
            },
            None => {
                let gen = self.next_gen;
                let slot = MapSlot { key: key.key_clone(), gen };
                let ghost gslot = slot;
                let ghost gkey = key;
                proof {
                    assert(gslot@ == (gkey@, old(self).version()));
                }
                let value = with(slot);
                let ghost gvalue = value;
                self.entries.push(Entry { key, gen, value });
                self.next_gen = gen + 1;
                proof {
                    let s1 = self.entries@;
                    assert(s1.drop_last() =~= s0);
                    assert(entries_model(s1) == entries_model(s0).insert(
                        gkey@,
                        Binding { gen, value: gvalue },
                    ));
                    assert forall|a: int, b: int| 0 <= a < b < s1.len() implies s1[a].key@
                        != s1[b].key@ by {
                        if b == s1.len() - 1 {
                            assert(!dom_has(s0, gkey@)) by {
                                lemma_model_dom(s0, gkey@);
                            }
                            assert(!(s0[a].key@ == gkey@));
                        }
                    }
                    lemma_model_at(s1, s1.len() - 1);
                }
                let i = self.entries.len() - 1;
                let e = &mut self.entries[i];
                &mut e.value
            },
        }
    }

    /// Binds `key` to `value`, replacing any existing binding, and returns a
    /// fresh handle for the new binding. Any handle previously minted for
    /// `key` becomes stale.
    pub fn insert_or_replace(&mut self, key: K, value: V) -> (slot: MapSlot<K>)
        requires
            old(self).wf(),
            old(self).version() < u64::MAX,
        ensures
            final(self).wf(),
            final(self).table() == old(self).table().insert(
                key@,
                Binding { gen: old(self).version(), value: value },
            ),
            final(self).version() == old(self).version() + 1,
            slot@ == (key@, old(self).version()),
            slot.valid_in(final(self)),
    {
        let ghost s0 = self.entries@;
        let slot_key = key.key_clone();
        let gen = self.next_gen;
        let ghost gkey = key;
        let ghost gvalue = value;
        match self.find(&key) {
            Some(i) => {
                proof {
                    lemma_model_at(s0, i as int);
                }
                let e = &mut self.entries[i];
                *e = Entry { key, gen, value };
                proof {
                    lemma_model_update(s0, i as int, Entry { key: gkey, gen, value: gvalue });
                    assert(self.entries@ == s0.update(
                        i as int,
                        Entry { key: gkey, gen, value: gvalue },
                    ));
                }
            },
            None => {
                self.entries.push(Entry { key, gen, value });
                proof {
                    let s1 = self.entries@;
                    assert(s1.drop_last() =~= s0);
                    assert(entries_model(s1) == entries_model(s0).insert(
                        gkey@,
                        Binding { gen, value: gvalue },
                    ));
                    assert forall|a: int, b: int| 0 <= a < b < s1.len() implies s1[a].key@
                        != s1[b].key@ by {
                        if b == s1.len() - 1 {
                            assert(!dom_has(s0, gkey@)) by {
                                lemma_model_dom(s0, gkey@);
                            }
                            assert(!(s0[a].key@ == gkey@));
                        }
                    }
                }
            },
        }
        self.next_gen = gen + 1;
        MapSlot { key: slot_key, gen }
    }

    /// Removes the binding of `key`, returning the stored key and value.
    pub fn remove(&mut self, key: &K) -> (r: Option<(K, V)>)
        requires
            old(self).wf(),
        ensures
            final(self).wf(),
            final(self).version() == old(self).version(),
            match r {
                Some(p) => old(self).table().contains_key(key@) && p.0@ == key@ && p.1 == old(
                    self,
                ).table()[key@].value && final(self).table() == old(self).table().remove(key@),
                None => !old(self).table().contains_key(key@) && *final(self) == *old(self),
            },
    {
        let ghost s0 = self.entries@;
        match self.find(key) {
            Some(i) => {
                proof {
                    lemma_model_at(s0, i as int);
                }
                let e = self.entries.swap_remove(i);
                proof {
                    let s1 = self.entries@;
                    if i as int == s0.len() - 1 {
                        assert(s1 =~= s0.drop_last());
                        lemma_model_drop_last(s0);
                    } else {
                        lemma_model_update_fresh(
                            s0.drop_last(),
                            i as int,
                            s0.last(),
                        );
                        assert(s1 =~= s0.drop_last().update(i as int, s0.last()));
                        lemma_model_drop_last(s0);
                        assert(!dom_has(s0.drop_last(), s0.last().key@)) by {
                            if dom_has(s0.drop_last(), s0.last().key@) {
                                let j = choose|j: int|
                                    0 <= j < s0.drop_last().len() && s0.drop_last()[j].key@
                                        == s0.last().key@;
                                assert(s0[j].key@ == s0.last().key@);
                            }
                        }
                        assert(s0.drop_last()[i as int] == s0[i as int]);
                        lemma_model_at(s0, s0.len() - 1);
                        assert(entries_model(s1) =~= entries_model(s0).remove(key@));
                    }
                }
                Some((e.key, e.value))
            },
            None => None,
        }
    }

    /// Removes every binding. The generation counter is kept, so handles
    /// minted before the clearing stay stale forever.
    pub fn clear(&mut self)
        requires
            old(self).wf(),
        ensures
            final(self).wf(),
            final(self).table() == Map::<<K as View>::V, Binding<V>>::empty(),
            final(self).version() == old(self).version(),
    {
        self.entries.clear();
    }
}

impl<K: Key, V> Default for SlotMap<K, V> {
    /// Creates an empty registry.
    fn default() -> (r: Self)
        ensures
            r.wf(),
            r.table() == Map::<<K as View>::V, Binding<V>>::empty(),
            r.version() == 0,
    {
        SlotMap::new()
    }
}

impl<K: Key> MapSlot<K> {
    /// Whether this handle's binding is the one currently held by `m`: its
    /// key is bound and the binding still has the generation observed when
    /// the handle was minted.
    pub open spec fn valid_in<V>(&self, m: &SlotMap<K, V>) -> bool {
        &&& m.table().contains_key(self@.0)
        &&& m.table()[self@.0].gen == self@.1
    }

    /// Gets a reference to the key this handle was minted for.
    pub fn key(&self) -> (r: &K)
        ensures
            r@ == self@.0,
    {
        &self.key
    }

    /// Whether the binding this handle was minted for is still the current
    /// binding of its key.
    pub fn is_valid<V>(&self, m: &SlotMap<K, V>) -> (r: bool)
        requires
            m.wf(),
        ensures
            r == self.valid_in(m),
    {
        match m.find(&self.key) {
            Some(i) => {
                proof {
                    lemma_model_at(m.entries@, i as int);
                }
                m.entries[i].gen == self.gen
            },
            None => false,
        }
    }

    /// Releases this handle: if its binding is still current, that binding is
    /// removed; a stale handle releases nothing. Releasing twice is a no-op.
    pub fn release<V>(&self, m: &mut SlotMap<K, V>)
        requires
            old(m).wf(),
        ensures
            final(m).wf(),
            final(m).version() == old(m).version(),
            self.valid_in(old(m)) ==> final(m).table() == old(m).table().remove(self@.0),
            !self.valid_in(old(m)) ==> *final(m) == *old(m),
    {
        if self.is_valid(m) {
            let _ = m.remove(&self.key);
        }
    }
}

} // verus!
