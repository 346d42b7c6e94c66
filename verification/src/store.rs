//! Stores keyed by widget identity.
//!
//! A store keeps its entries in the order in which their identities were first
//! inserted, so walking it is deterministic.

use crate::widget::{WidgetId, WidgetIdView};
use vstd::prelude::*;

verus! {

/// The map that a list of distinct keys and a list of values describe.
pub open spec fn assoc_map<K, V>(keys: Seq<K>, values: Seq<V>) -> Map<K, V> {
    Map::new(|k: K| keys.contains(k), |k: K| values[keys.index_of(k)])
}

/// With distinct keys, the map holds each value under the key at its index.
pub proof fn lemma_assoc_map_index<K, V>(keys: Seq<K>, values: Seq<V>, i: int)
    requires
        keys.no_duplicates(),
        keys.len() == values.len(),
        0 <= i < keys.len(),
    ensures
        assoc_map(keys, values).contains_key(keys[i]),
        assoc_map(keys, values)[keys[i]] == values[i],
{
    let j = keys.index_of(keys[i]);
}

/// Appending an entry with a fresh key inserts it into the map.
pub proof fn lemma_assoc_map_push<K, V>(keys: Seq<K>, values: Seq<V>, key: K, value: V)
    requires
        keys.no_duplicates(),
        keys.len() == values.len(),
        !keys.contains(key),
    ensures
        keys.push(key).no_duplicates(),
        assoc_map(keys.push(key), values.push(value)) == assoc_map(keys, values).insert(
            key,
            value,
        ),
{
    let keys2 = keys.push(key);
    let values2 = values.push(value);
    let m1 = assoc_map(keys2, values2);
    let m2 = assoc_map(keys, values).insert(key, value);
    assert forall|k: K| m1.contains_key(k) == m2.contains_key(k) by {
        if keys2.contains(k) {
            let i = keys2.index_of(k);
        }
        if keys.contains(k) {
            let i = keys.index_of(k);
            assert(keys2[i] == k);
        }
        if k == key {
            assert(keys2[keys.len() as int] == k);
        }
    }
}

/// Replacing the value at an index replaces it in the map.
pub proof fn lemma_assoc_map_update<K, V>(keys: Seq<K>, values: Seq<V>, i: int, value: V)
    requires
        keys.no_duplicates(),
        keys.len() == values.len(),
        0 <= i < keys.len(),
    ensures
        assoc_map(keys, values.update(i, value)) == assoc_map(keys, values).insert(keys[i], value),
{
    let m1 = assoc_map(keys, values.update(i, value));
    let m2 = assoc_map(keys, values).insert(keys[i], value);
}

/// Removing the entry at an index removes its key from the map.
pub proof fn lemma_assoc_map_remove<K, V>(keys: Seq<K>, values: Seq<V>, i: int)
    requires
        keys.no_duplicates(),
        keys.len() == values.len(),
        0 <= i < keys.len(),
    ensures
        keys.remove(i).no_duplicates(),
        !keys.remove(i).contains(keys[i]),
        assoc_map(keys.remove(i), values.remove(i)) == assoc_map(keys, values).remove(keys[i]),
{
    let keys2 = keys.remove(i);
    let values2 = values.remove(i);
    let m1 = assoc_map(keys2, values2);
    let m2 = assoc_map(keys, values).remove(keys[i]);
    assert forall|k: K| m1.contains_key(k) == m2.contains_key(k) by {
        if keys2.contains(k) {
            let a = keys2.index_of(k);
        }
        if keys.contains(k) && k != keys[i] {
            let b = keys.index_of(k);
            if b < i {
                assert(keys2[b] == k);
            } else {
                assert(keys2[b - 1] == k);
            }
        }
    }
}

/// With distinct keys, the map's domain is the set of keys, and it is finite.
pub proof fn lemma_assoc_map_facts<K, V>(keys: Seq<K>, values: Seq<V>)
    requires
        keys.no_duplicates(),
        keys.len() == values.len(),
    ensures
        assoc_map(keys, values).dom() == keys.to_set(),
        assoc_map(keys, values).dom().finite(),
        assoc_map(keys, values).len() == keys.len(),
        forall|i: int|
            0 <= i < keys.len() ==> assoc_map(keys, values).contains_key(#[trigger] keys[i])
                && assoc_map(keys, values)[keys[i]] == values[i],
{
    vstd::seq_lib::seq_to_set_is_finite(keys);
    keys.unique_seq_to_set();
}

/// Those of the first `count` keys that `keep` holds of, in order.
pub open spec fn kept_keys<K>(keys: Seq<K>, keep: spec_fn(K) -> bool, count: nat) -> Seq<K>
    decreases count,
{
    if count == 0 || count > keys.len() {
        Seq::empty()
    } else if keep(keys[count - 1]) {
        kept_keys(keys, keep, (count - 1) as nat).push(keys[count - 1])
    } else {
        kept_keys(keys, keep, (count - 1) as nat)
    }
}

/// A map from widget identities to values of type `V`.
pub struct WidgetStore<V> {
    ids: Vec<WidgetId>,
    values: Vec<V>,
}

impl<V> WidgetStore<V> {
    #[verifier::type_invariant]
    closed spec fn inv(&self) -> bool {
        &&& self.ids.len() == self.values.len()
        &&& self.keys().no_duplicates()
    }

    /// The identities in the store, in the order of their first insertion.
    pub closed spec fn keys(&self) -> Seq<WidgetIdView> {
        Seq::new(self.ids@.len(), |i: int| self.ids@[i]@)
    }

    /// The values in the store, each at the index of its identity.
    pub closed spec fn values(&self) -> Seq<V> {
        self.values@
    }

    /// Identities are distinct and each has one value.
    pub open spec fn wf(&self) -> bool {
        &&& self.keys().len() == self.values().len()
        &&& self.keys().no_duplicates()
    }

    /// The store as a map.
    pub open spec fn view(&self) -> Map<WidgetIdView, V> {
        assoc_map(self.keys(), self.values())
    }

    /// An empty store.
    pub fn new() -> (store: WidgetStore<V>)
        ensures
            store@ == Map::<WidgetIdView, V>::empty(),
            store.keys() == Seq::<WidgetIdView>::empty(),
            store.values() == Seq::<V>::empty(),
    {
        let store = WidgetStore { ids: Vec::new(), values: Vec::new() };
        store
    }

    /// The number of entries.
    pub fn len(&self) -> (len: usize)
        ensures
            len == self.keys().len(),
            len == self.values().len(),
            len == self@.len(),
            self.wf(),
            self@.dom().finite(),
            forall|i: int|
                0 <= i < self.keys().len() ==> self@.contains_key(#[trigger] self.keys()[i])
                    && self@[self.keys()[i]] == self.values()[i],
    {
        proof {
            use_type_invariant(self);
            lemma_assoc_map_facts(self.keys(), self.values());
        }
        self.ids.len()
    }

    /// Whether the store has no entry.
    pub fn is_empty(&self) -> (empty: bool)
        ensures
            empty == (self.keys().len() == 0),
            empty == (self@ == Map::<WidgetIdView, V>::empty()),
    {
        proof {
            use_type_invariant(self);
            lemma_assoc_map_facts(self.keys(), self.values());
            if self.keys().len() > 0 {
            } else {
                assert(self@ =~= Map::<WidgetIdView, V>::empty());
            }
        }
        self.ids.len() == 0
    }

    /// Moves the entries out, leaving the store empty.
    fn take_parts(&mut self) -> (parts: (Vec<WidgetId>, Vec<V>))
        ensures
            parts.0 == old(self).ids,
            parts.1 == old(self).values,
    {
        let mut taken = WidgetStore { ids: Vec::new(), values: Vec::new() };
        std::mem::swap(self, &mut taken);
        let WidgetStore { ids, values } = taken;
        (ids, values)
    }

    /// The index of `id` among the keys, if it is there.
    fn position(&self, id: &WidgetId) -> (found: Option<usize>)
        ensures
            match found {
                Some(i) => i < self.keys().len() && self.keys()[i as int] == id@,
                None => !self.keys().contains(id@),
            },
    {
        let mut i: usize = 0;
        while i < self.ids.len()
            invariant
                i <= self.ids.len(),
                forall|j: int| 0 <= j < i ==> self.keys()[j] != id@,
            decreases self.ids.len() - i,
        {
            if self.ids[i] == *id {
                return Some(i);
            }
            i += 1;
        }
        proof {
            if self.keys().contains(id@) {
                let j = self.keys().index_of(id@);
            }
        }
        None
    }

    /// Whether `id` has an entry.
    pub fn contains_key(&self, id: &WidgetId) -> (found: bool)
        ensures
            found == self@.contains_key(id@),
    {
        self.position(id).is_some()
    }

    /// The value stored for `id`.
    pub fn get(&self, id: &WidgetId) -> (value: Option<&V>)
        ensures
            match value {
                Some(v) => self@.contains_key(id@) && *v == self@[id@],
                None => !self@.contains_key(id@),
            },
    {
        proof {
            use_type_invariant(self);
            lemma_assoc_map_facts(self.keys(), self.values());
        }
        match self.position(id) {
            Some(i) => Some(&self.values[i]),
            None => None,
        }
    }

    /// The identity at `index` in insertion order.
    pub fn id_at(&self, index: usize) -> (id: &WidgetId)
        requires
            index < self.keys().len(),
        ensures
            id@ == self.keys()[index as int],
            self@.contains_key(id@),
    {
        proof {
            use_type_invariant(self);
            lemma_assoc_map_facts(self.keys(), self.values());
        }
        &self.ids[index]
    }

    /// The value at `index` in insertion order.
    pub fn value_at(&self, index: usize) -> (value: &V)
        requires
            index < self.keys().len(),
        ensures
            *value == self.values()[index as int],
            *value == self@[self.keys()[index as int]],
    {
        proof {
            use_type_invariant(self);
            lemma_assoc_map_facts(self.keys(), self.values());
        }
        &self.values[index]
    }

    /// Stores `value` for `id`. An identity that is already there keeps its
    /// place and hands back its former value; a new one goes to the end.
    pub fn insert(&mut self, id: WidgetId, value: V) -> (former: Option<V>)
        ensures
            final(self)@ == old(self)@.insert(id@, value),
            former == if old(self)@.contains_key(id@) {
                Some(old(self)@[id@])
            } else {
                None
            },
            final(self).keys() == if old(self)@.contains_key(id@) {
                old(self).keys()
            } else {
                old(self).keys().push(id@)
            },
    {
        proof {
            use_type_invariant(&*self);
            lemma_assoc_map_facts(self.keys(), self.values());
        }
        let ghost keys0 = self.keys();
        let ghost values0 = self.values();
        let found = self.position(&id);
        let (mut ids, mut values) = self.take_parts();
        match found {
            Some(i) => {
                let mut value = value;
                std::mem::swap(&mut values[i], &mut value);
                proof {
                    lemma_assoc_map_update(keys0, values0, i as int, values@[i as int]);
                }
                *self = WidgetStore { ids, values };
                Some(value)
            },
            None => {
                ids.push(id);
                values.push(value);
                proof {
                    lemma_assoc_map_push(keys0, values0, id@, value);
                    assert(Seq::new(ids@.len(), |j: int| ids@[j]@) == keys0.push(id@));
                }
                *self = WidgetStore { ids, values };
                None
            },
        }
    }

    /// Removes the entry of `id` and hands back its value. The other entries
    /// keep their order.
    pub fn remove(&mut self, id: &WidgetId) -> (former: Option<V>)
        ensures
            final(self)@ == old(self)@.remove(id@),
            former == if old(self)@.contains_key(id@) {
                Some(old(self)@[id@])
            } else {
                None
            },
            !old(self)@.contains_key(id@) ==> final(self).keys() == old(self).keys(),
            old(self)@.contains_key(id@) ==> final(self).keys() == old(self).keys().remove(
                old(self).keys().index_of(id@),
            ),
    {
        proof {
            use_type_invariant(&*self);
            lemma_assoc_map_facts(self.keys(), self.values());
        }
        let ghost keys0 = self.keys();
        let ghost values0 = self.values();
        match self.position(id) {
            Some(i) => {
                let (mut ids, mut values) = self.take_parts();
                ids.remove(i);
                let value = values.remove(i);
                proof {
                    lemma_assoc_map_remove(keys0, values0, i as int);
                    assert(Seq::new(ids@.len(), |j: int| ids@[j]@) == keys0.remove(i as int));
                }
                *self = WidgetStore { ids, values };
                Some(value)
            },
            None => {
                None
            },
        }
    }

    /// Removes the last entry in insertion order and hands it back.
    pub fn pop(&mut self) -> (last: Option<(WidgetId, V)>)
        ensures
            match last {
                Some((id, value)) => {
                    &&& old(self).keys().len() > 0
                    &&& id@ == old(self).keys().last()
                    &&& value == old(self).values().last()
                    &&& final(self).keys() == old(self).keys().drop_last()
                    &&& final(self).values() == old(self).values().drop_last()
                    &&& final(self)@ == old(self)@.remove(id@)
                },
                None => {
                    &&& old(self).keys().len() == 0
                    &&& final(self)@ == old(self)@
                    &&& final(self).keys() == old(self).keys()
                },
            },
    {
        proof {
            use_type_invariant(&*self);
            lemma_assoc_map_facts(self.keys(), self.values());
        }
        let ghost keys0 = self.keys();
        let ghost values0 = self.values();
        if self.ids.len() == 0 {
            return None;
        }
        let (mut ids, mut values) = self.take_parts();
        let id = ids.pop().unwrap();
        let value = values.pop().unwrap();
        proof {
            let i = keys0.len() - 1;
            lemma_assoc_map_remove(keys0, values0, i);
            assert(Seq::new(ids@.len(), |j: int| ids@[j]@) == keys0.drop_last());
        }
        *self = WidgetStore { ids, values };
        Some((id, value))
    }

    /// Empties the store.
    pub fn clear(&mut self)
        ensures
            final(self)@ == Map::<WidgetIdView, V>::empty(),
            final(self).keys() == Seq::<WidgetIdView>::empty(),
    {
        *self = WidgetStore::new();
    }
}

/// The elements of `list` in reverse order.
pub fn reversed<T>(list: Vec<T>) -> (reverse: Vec<T>)
    ensures
        reverse@ == list@.reverse(),
{
    let mut list = list;
    let ghost given = list@;
    let mut reverse: Vec<T> = Vec::new();
    while list.len() > 0
        invariant
            list@.len() + reverse@.len() == given.len(),
            list@ == given.subrange(0, list@.len() as int),
            forall|i: int| 0 <= i < reverse@.len() ==> reverse@[i] == given[given.len() - 1 - i],
        decreases list.len(),
    {
        let last = list.pop().unwrap();
        reverse.push(last);
    }
    reverse
}

impl<V> WidgetStore<V> {
    /// Puts `value` in the place of the value at `index` and hands that one
    /// back. The identities stay as they are.
    pub fn replace_at(&mut self, index: usize, value: V) -> (former: V)
        requires
            index < old(self).keys().len(),
        ensures
            former == old(self).values()[index as int],
            final(self).keys() == old(self).keys(),
            final(self).values() == old(self).values().update(index as int, value),
            final(self)@ == old(self)@.insert(old(self).keys()[index as int], value),
    {
        proof {
            use_type_invariant(&*self);
            lemma_assoc_map_facts(self.keys(), self.values());
        }
        let ghost keys0 = self.keys();
        let ghost values0 = self.values();
        let (ids, mut values) = self.take_parts();
        let mut value = value;
        std::mem::swap(&mut values[index], &mut value);
        proof {
            lemma_assoc_map_update(keys0, values0, index as int, values@[index as int]);
        }
        *self = WidgetStore { ids, values };
        value
    }

    /// The identities and the values, each list in insertion order.
    pub fn into_entries(self) -> (entries: (Vec<WidgetId>, Vec<V>))
        ensures
            entries.0@.len() == self.keys().len(),
            entries.1@ == self.values(),
            forall|i: int| 0 <= i < self.keys().len()
                ==> (#[trigger] entries.0@[i])@ == self.keys()[i],
            self.wf(),
    {
        proof {
            use_type_invariant(&self);
        }
        let WidgetStore { ids, values } = self;
        (ids, values)
    }

    /// Writes the entries of `other` over this store: an identity in both
    /// keeps its place and gets the value of `other`, a new one goes to the
    /// end.
    pub fn extend(&mut self, other: WidgetStore<V>)
        ensures
            final(self)@ == old(self)@.union_prefer_right(other@),
            final(self).keys() == old(self).keys() + kept_keys(
                other.keys(),
                |id: WidgetIdView| !old(self)@.contains_key(id),
                other.keys().len(),
            ),
    {
        let ghost keys = other.keys();
        let ghost values = other.values();
        let (ids, items) = other.into_entries();
        proof {
            lemma_assoc_map_facts(keys, values);
        }
        let mut ids = reversed(ids);
        let mut items = reversed(items);
        let count = ids.len();
        let ghost base = self@;
        let ghost base_keys = self.keys();
        let ghost fresh = |id: WidgetIdView| !base.contains_key(id);
        let mut i: usize = 0;
        while i < count
            invariant
                i <= count,
                count == keys.len(),
                keys.len() == values.len(),
                keys.no_duplicates(),
                ids@.len() == count - i,
                items@.len() == count - i,
                forall|j: int| 0 <= j < count - i ==> (#[trigger] ids@[j])@ == keys[count - 1 - j],
                forall|j: int| 0 <= j < count - i ==> #[trigger] items@[j] == values[count - 1 - j],
                self@ == base.union_prefer_right(
                    assoc_map(keys.subrange(0, i as int), values.subrange(0, i as int)),
                ),
                self.keys() == base_keys + kept_keys(keys, fresh, i as nat),
                fresh == |id: WidgetIdView| !base.contains_key(id),
            decreases count - i,
        {
            let id = ids.pop().unwrap();
            let item = items.pop().unwrap();
            proof {
                let head = keys.subrange(0, i as int);
                lemma_assoc_map_push(head, values.subrange(0, i as int), keys[i as int], values[i as int]);
                assert(head.push(keys[i as int]) == keys.subrange(0, i + 1));
                assert(values.subrange(0, i as int).push(values[i as int]) == values.subrange(
                    0,
                    i + 1,
                ));
            }
            self.insert(id, item);
            i += 1;
        }
        proof {
            assert(keys.subrange(0, count as int) == keys);
        }
    }

    /// Parts the entries by whether `keys` has their identity: those that it
    /// has, and those that it has not. Both keep their order.
    pub fn partition<U>(self, keys: &WidgetStore<U>) -> (parts: (WidgetStore<V>, WidgetStore<V>))
        ensures
            parts.0@ == self@.restrict(keys@.dom()),
            parts.1@ == self@.remove_keys(keys@.dom()),
            parts.0.keys() == kept_keys(
                self.keys(),
                |id: WidgetIdView| keys@.contains_key(id),
                self.keys().len(),
            ),
            parts.1.keys() == kept_keys(
                self.keys(),
                |id: WidgetIdView| !keys@.contains_key(id),
                self.keys().len(),
            ),
    {
        let ghost all_keys = self.keys();
        let ghost all_values = self.values();
        let ghost whole = self@;
        let (ids, items) = self.into_entries();
        proof {
            lemma_assoc_map_facts(all_keys, all_values);
        }
        let mut ids = reversed(ids);
        let mut items = reversed(items);
        let count = ids.len();
        let mut kept: WidgetStore<V> = WidgetStore::new();
        let mut dropped: WidgetStore<V> = WidgetStore::new();
        let ghost has = |id: WidgetIdView| keys@.contains_key(id);
        let ghost lacks = |id: WidgetIdView| !keys@.contains_key(id);
        let mut i: usize = 0;
        while i < count
            invariant
                i <= count,
                has == |id: WidgetIdView| keys@.contains_key(id),
                lacks == |id: WidgetIdView| !keys@.contains_key(id),
                kept.keys() == kept_keys(all_keys, has, i as nat),
                dropped.keys() == kept_keys(all_keys, lacks, i as nat),
                count == all_keys.len(),
                all_keys.len() == all_values.len(),
                all_keys.no_duplicates(),
                whole == assoc_map(all_keys, all_values),
                ids@.len() == count - i,
                items@.len() == count - i,
                forall|j: int| 0 <= j < count - i
                    ==> (#[trigger] ids@[j])@ == all_keys[count - 1 - j],
                forall|j: int|
                    0 <= j < count - i ==> #[trigger] items@[j] == all_values[count - 1 - j],
                forall|k: WidgetIdView|
                    kept@.contains_key(k) <==> (exists|j: int|
                        0 <= j < i && #[trigger] all_keys[j] == k) && keys@.contains_key(k),
                forall|k: WidgetIdView|
                    dropped@.contains_key(k) <==> (exists|j: int|
                        0 <= j < i && #[trigger] all_keys[j] == k) && !keys@.contains_key(k),
                forall|k: WidgetIdView| kept@.contains_key(k) ==> kept@[k] == whole[k],
                forall|k: WidgetIdView| dropped@.contains_key(k) ==> dropped@[k] == whole[k],
            decreases count - i,
        {
            let id = ids.pop().unwrap();
            let item = items.pop().unwrap();
            proof {
                lemma_assoc_map_index(all_keys, all_values, i as int);
            }
            if keys.contains_key(&id) {
                kept.insert(id, item);
            } else {
                dropped.insert(id, item);
            }
            i += 1;
        }
        (kept, dropped)
    }
}

impl<V> WidgetStore<V> {
    /// Whether every identity of this store is in `first` or in `second`.
    pub fn keys_within<A, B>(&self, first: &WidgetStore<A>, second: &WidgetStore<B>) -> (within:
        bool)
        ensures
            within == forall|id: WidgetIdView| #[trigger]
                self@.contains_key(id) ==> first@.contains_key(id) || second@.contains_key(id),
    {
        let count = self.len();
        proof {
            lemma_assoc_map_facts(self.keys(), self.values());
        }
        let mut i: usize = 0;
        while i < count
            invariant
                i <= count,
                count == self.keys().len(),
                forall|j: int|
                    0 <= j < i ==> first@.contains_key(#[trigger] self.keys()[j])
                        || second@.contains_key(self.keys()[j]),
            decreases count - i,
        {
            let id = self.id_at(i);
            if !first.contains_key(id) && !second.contains_key(id) {
                return false;
            }
            i += 1;
        }
        proof {
            assert forall|id: WidgetIdView| #[trigger] self@.contains_key(id) implies first@.contains_key(
                id,
            ) || second@.contains_key(id) by {
                assert(self.keys().to_set().contains(id));
                let j = choose|j: int| 0 <= j < self.keys().len() && self.keys()[j] == id;
                assert(first@.contains_key(self.keys()[j]) || second@.contains_key(self.keys()[j]));
            }
        }
        true
    }

    /// Whether no identity of this store is in `other`.
    pub fn keys_apart<A>(&self, other: &WidgetStore<A>) -> (apart: bool)
        ensures
            apart == forall|id: WidgetIdView| #[trigger]
                self@.contains_key(id) ==> !other@.contains_key(id),
    {
        let count = self.len();
        proof {
            lemma_assoc_map_facts(self.keys(), self.values());
        }
        let mut i: usize = 0;
        while i < count
            invariant
                i <= count,
                count == self.keys().len(),
                forall|j: int| 0 <= j < i ==> !other@.contains_key(#[trigger] self.keys()[j]),
            decreases count - i,
        {
            let id = self.id_at(i);
            if other.contains_key(id) {
                return false;
            }
            i += 1;
        }
        proof {
            assert forall|id: WidgetIdView| #[trigger] self@.contains_key(id) implies !other@.contains_key(
                id,
            ) by {
                assert(self.keys().to_set().contains(id));
                let j = choose|j: int| 0 <= j < self.keys().len() && self.keys()[j] == id;
                assert(!other@.contains_key(self.keys()[j]));
            }
        }
        true
    }
}

} // verus!
