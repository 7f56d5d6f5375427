use vstd::prelude::*;
use crate::backing::{enumerates, map_entries, no_entries, TrieKey, TrieMap};
use crate::error::CollectionError;
use crate::object::{joined_pairs, write_joined_pairs, Object};
use vstd::string::StringExecFns;
use crate::vector::Vector;
use crate::backing::enumerates_set;
use crate::hashing::{hash_size_and_sum, mix, set_sum, sum_listing, to_word, unordered_hash, word, word_writes};
use vstd::bytes::spec_u64_to_le_bytes;
use std::collections::hash_map::DefaultHasher;
use vstd::std_specs::hash::DefaultHasherAdditionalSpecFns;

verus! {

/// The trie key of a hashable object: its value and the hash it reports.
pub open spec fn key_of(o: Object) -> TrieKey {
    (o.value, o.hash->0)
}

/// The object that a trie key stands for.
pub open spec fn object_of(k: TrieKey) -> Object {
    Object { value: k.0, hash: Some(k.1) }
}

/// The trie key of `o`, or a failure when `o` refuses to be hashed.
pub fn trie_key(o: &Object) -> (r: Result<TrieKey, CollectionError>)
    ensures
        o.hash is None ==> r == Err::<TrieKey, CollectionError>(CollectionError::CapabilityFailure),
        o.hash is Some ==> r == Ok::<TrieKey, CollectionError>(key_of(*o)),
{
    match o.hash {
        Some(h) => Ok((o.value, h)),
        None => Err(CollectionError::CapabilityFailure),
    }
}

/// Whether `objects` lists the keys of `m` exactly once each, as objects.
pub open spec fn lists_keys(objects: Seq<Object>, m: Map<TrieKey, Object>) -> bool {
    &&& objects.len() == m.dom().len()
    &&& forall|i: int| 0 <= i < objects.len() ==> (#[trigger] objects[i]).hash is Some && m.contains_key(key_of(objects[i]))
    &&& forall|i: int, j: int| 0 <= i < j < objects.len() ==> objects[i] != objects[j]
    &&& forall|k: TrieKey| #[trigger] m.contains_key(k) ==> exists|i: int| 0 <= i < objects.len() && objects[i] == object_of(k)
}

/// Whether `pairs` lists the entries of `m` exactly once each, keys as objects.
pub open spec fn lists_items(pairs: Seq<(Object, Object)>, m: Map<TrieKey, Object>) -> bool {
    &&& lists_keys(pairs.map_values(|p: (Object, Object)| p.0), m)
    &&& forall|i: int| 0 <= i < pairs.len() ==> m[key_of((#[trigger] pairs[i]).0)] == pairs[i].1
}

/// What inserting each of `pairs` in turn makes of `m`; the first key that
/// refuses to be hashed ends it.
pub open spec fn insert_all(m: Map<TrieKey, Object>, pairs: Seq<(Object, Object)>) -> Result<Map<TrieKey, Object>, CollectionError>
    decreases pairs.len(),
{
    if pairs.len() == 0 {
        Ok(m)
    } else if pairs[0].0.hash is None {
        Err(CollectionError::CapabilityFailure)
    } else {
        insert_all(m.insert(key_of(pairs[0].0), pairs[0].1), pairs.drop_first())
    }
}

/// The hash that an entry contributes: its key's hash and its value's hash, mixed.
pub open spec fn entry_code(k: TrieKey, v: Object) -> int {
    DefaultHasher::spec_finish(seq![spec_u64_to_le_bytes(word(k.1)), spec_u64_to_le_bytes(word(v.hash->0))]) as int
}

/// The codes of the entries of `m`, by key.
pub open spec fn entry_codes(m: Map<TrieKey, Object>) -> spec_fn(TrieKey) -> int {
    |k: TrieKey| entry_code(k, m[k])
}

/// Whether every value of `m` can be hashed.
pub open spec fn values_hashable(m: Map<TrieKey, Object>) -> bool {
    forall|k: TrieKey| #[trigger] m.contains_key(k) ==> m[k].hash is Some
}

/// The hash of a map: its size and the wrapped sum of its entries' codes, so
/// that equal maps hash alike whatever order their tries list them in; a
/// failure if a value refuses to be hashed.
pub open spec fn map_hash(m: Map<TrieKey, Object>) -> Result<u64, CollectionError> {
    if values_hashable(m) {
        Ok(unordered_hash(m.dom().len(), set_sum(m.dom(), entry_codes(m))))
    } else {
        Err(CollectionError::CapabilityFailure)
    }
}

/// A persistent hash-trie map from hashable objects to objects.
pub struct PMap {
    value: TrieMap,
}

impl View for PMap {
    type V = Map<TrieKey, Object>;

    /// The entries, each keyed by the key of its object.
    closed spec fn view(&self) -> Map<TrieKey, Object> {
        map_entries(self.value)
    }
}

impl PMap {
    /// A map holds finitely many entries.
    #[verifier::type_invariant]
    spec fn finitely_many(self) -> bool {
        map_entries(self.value).dom().finite()
    }

    /// The empty map.
    pub fn new() -> (r: PMap)
        ensures
            r@ == no_entries(),
    {
        PMap { value: TrieMap::new() }
    }

    /// A map where `py_key` maps to `py_value`, replacing the value of an equal key.
    pub fn set(&self, py_key: Object, py_value: Object) -> (r: Result<PMap, CollectionError>)
        requires
            self@.dom().len() < usize::MAX,
        ensures
            py_key.hash is None ==> r == Err::<PMap, CollectionError>(CollectionError::CapabilityFailure),
            py_key.hash is Some ==> (r matches Ok(t) && t@ == self@.insert(key_of(py_key), py_value)),
    {
        proof {
            use_type_invariant(self);
        }
        let key = match trie_key(&py_key) {
            Ok(k) => k,
            Err(e) => return Err(e),
        };
        Ok(PMap { value: self.value.insert(key, py_value) })
    }

    /// A map without an entry for `py_object`; an absent key leaves the entries as they were.
    pub fn discard(&self, py_object: Object) -> (r: Result<PMap, CollectionError>)
        ensures
            py_object.hash is None ==> r == Err::<PMap, CollectionError>(CollectionError::CapabilityFailure),
            py_object.hash is Some ==> (r matches Ok(t) && t@ == self@.remove(key_of(py_object))),
    {
        let key = match trie_key(&py_object) {
            Ok(k) => k,
            Err(e) => return Err(e),
        };
        proof {
            use_type_invariant(self);
        }
        Ok(PMap { value: self.value.remove(&key) })
    }

    /// A map without the entry for `py_key`, which must be present.
    pub fn remove(&self, py_key: Object) -> (r: Result<PMap, CollectionError>)
        ensures
            py_key.hash is None ==> r == Err::<PMap, CollectionError>(CollectionError::CapabilityFailure),
            py_key.hash is Some && !self@.contains_key(key_of(py_key)) ==> r == Err::<PMap, CollectionError>(CollectionError::KeyNotFound),
            py_key.hash is Some && self@.contains_key(key_of(py_key)) ==> (r matches Ok(t) && t@ == self@.remove(key_of(py_key))),
    {
        let key = match trie_key(&py_key) {
            Ok(k) => k,
            Err(e) => return Err(e),
        };
        if self.value.get(&key).is_none() {
            return Err(CollectionError::KeyNotFound);
        }
        proof {
            use_type_invariant(self);
        }
        Ok(PMap { value: self.value.remove(&key) })
    }

    /// The value that `py_key` maps to.
    pub fn get(&self, py_key: Object) -> (r: Result<Object, CollectionError>)
        ensures
            py_key.hash is None ==> r == Err::<Object, CollectionError>(CollectionError::CapabilityFailure),
            py_key.hash is Some && !self@.contains_key(key_of(py_key)) ==> r == Err::<Object, CollectionError>(CollectionError::KeyNotFound),
            py_key.hash is Some && self@.contains_key(key_of(py_key)) ==> r == Ok::<Object, CollectionError>(self@[key_of(py_key)]),
    {
        let key = match trie_key(&py_key) {
            Ok(k) => k,
            Err(e) => return Err(e),
        };
        match self.value.get(&key) {
            Some(v) => Ok(v),
            None => Err(CollectionError::KeyNotFound),
        }
    }

    /// Whether `py_key` has an entry.
    pub fn contains_key(&self, py_key: Object) -> (r: Result<bool, CollectionError>)
        ensures
            py_key.hash is None ==> r == Err::<bool, CollectionError>(CollectionError::CapabilityFailure),
            py_key.hash is Some ==> r == Ok::<bool, CollectionError>(self@.contains_key(key_of(py_key))),
    {
        let key = match trie_key(&py_key) {
            Ok(k) => k,
            Err(e) => return Err(e),
        };
        Ok(self.value.get(&key).is_some())
    }

    /// The number of entries.
    pub fn len(&self) -> (r: usize)
        ensures
            self@.dom().finite(),
            r == self@.dom().len(),
    {
        proof {
            use_type_invariant(self);
        }
        self.value.size()
    }

    /// The keys, each once, in the trie's order.
    pub fn keys(&self) -> (r: Vector)
        ensures
            lists_keys(r@, self@),
    {
        let items = self.items();
        let mut keys = Vector::new();
        let mut i: usize = 0;
        let ghost firsts = items@.map_values(|p: (Object, Object)| p.0);
        while i < items.len()
            invariant
                0 <= i <= items.len(),
                firsts == items@.map_values(|p: (Object, Object)| p.0),
                keys@ == firsts.subrange(0, i as int),
            decreases items.len() - i,
        {
            keys = keys.append(items[i].0);
            i = i + 1;
            assert(keys@ =~= firsts.subrange(0, i as int));
        }
        assert(keys@ =~= firsts);
        keys
    }

    /// The values, one for each entry, in the trie's order.
    pub fn values(&self) -> (r: Vector)
        ensures
            exists|pairs: Seq<(Object, Object)>| lists_items(pairs, self@) && r@ == pairs.map_values(|p: (Object, Object)| p.1),
    {
        let items = self.items();
        let mut values = Vector::new();
        let mut i: usize = 0;
        while i < items.len()
            invariant
                0 <= i <= items.len(),
                values@ == items@.map_values(|p: (Object, Object)| p.1).subrange(0, i as int),
            decreases items.len() - i,
        {
            values = values.append(items[i].1);
            i = i + 1;
            assert(values@ =~= items@.map_values(|p: (Object, Object)| p.1).subrange(0, i as int));
        }
        assert(values@ =~= items@.map_values(|p: (Object, Object)| p.1));
        values
    }

    /// The values, as `values` gives them.
    pub fn itervalues(&self) -> (r: Vector)
        ensures
            exists|pairs: Seq<(Object, Object)>| lists_items(pairs, self@) && r@ == pairs.map_values(|p: (Object, Object)| p.1),
    {
        self.values()
    }

    /// The entries as key and value pairs, each once, in the trie's order.
    pub fn items(&self) -> (r: Vec<(Object, Object)>)
        ensures
            lists_items(r@, self@),
    {
        let entries = self.value.to_vec();
        let mut items: Vec<(Object, Object)> = Vec::new();
        let mut i: usize = 0;
        while i < entries.len()
            invariant
                0 <= i <= entries.len(),
                enumerates(entries@, self@),
                items@.len() == i,
                forall|j: int| 0 <= j < i ==> (#[trigger] items@[j]) == (object_of(entries@[j].0), entries@[j].1),
            decreases entries.len() - i,
        {
            let (k, v) = entries[i];
            items.push((Object { value: k.0, hash: Some(k.1) }, v));
            i = i + 1;
        }
        let ghost firsts = items@.map_values(|p: (Object, Object)| p.0);
        assert forall|k: TrieKey| #[trigger] self@.contains_key(k) implies exists|i: int| 0 <= i < firsts.len() && firsts[i] == object_of(k) by {
            let j = choose|j: int| 0 <= j < entries@.len() && entries@[j].0 == k;
            assert(firsts[j] == object_of(k));
        }
        assert forall|a: int, b: int| 0 <= a < b < firsts.len() implies firsts[a] != firsts[b] by {
            assert(entries@[a].0 != entries@[b].0);
        }
        assert forall|a: int| 0 <= a < firsts.len() implies (#[trigger] firsts[a]).hash is Some && self@.contains_key(key_of(firsts[a])) by {
            assert(key_of(firsts[a]) == entries@[a].0);
        }
        assert forall|a: int| 0 <= a < items@.len() implies self@[key_of((#[trigger] items@[a]).0)] == items@[a].1 by {
            assert(key_of(items@[a].0) == entries@[a].0);
            assert(self@.contains_key(entries@[a].0));
        }
        items
    }

    /// The entries, as `items` gives them.
    pub fn iteritems(&self) -> (r: Vec<(Object, Object)>)
        ensures
            lists_items(r@, self@),
    {
        self.items()
    }

    /// A map with each of `pairs` inserted in turn; a key that refuses to be
    /// hashed fails the whole call.
    pub fn update(&self, pairs: &Vec<(Object, Object)>) -> (r: Result<PMap, CollectionError>)
        requires
            self@.dom().len() + pairs@.len() < usize::MAX,
        ensures
            insert_all(self@, pairs@) matches Ok(m) ==> (r matches Ok(t) && t@ == m),
            insert_all(self@, pairs@) matches Err(e) ==> r == Err::<PMap, CollectionError>(e),
    {
        proof {
            use_type_invariant(self);
        }
        let mut map = PMap { value: self.value.share() };
        let mut i: usize = 0;
        assert(pairs@.subrange(0, pairs@.len() as int) =~= pairs@);
        while i < pairs.len()
            invariant
                0 <= i <= pairs.len(),
                self@.dom().len() + pairs@.len() < usize::MAX,
                map@.dom().finite(),
                map@.dom().len() <= self@.dom().len() + i,
                insert_all(self@, pairs@) == insert_all(map@, pairs@.subrange(i as int, pairs@.len() as int)),
            decreases pairs.len() - i,
        {
            let (key, value) = pairs[i];
            assert(pairs@.subrange(i as int, pairs@.len() as int).drop_first() =~= pairs@.subrange(i + 1, pairs@.len() as int));
            map = match map.set(key, value) {
                Ok(t) => t,
                Err(e) => return Err(e),
            };
            i = i + 1;
        }
        assert(pairs@.subrange(i as int, pairs@.len() as int) =~= Seq::<(Object, Object)>::empty());
        Ok(map)
    }

    /// The hash of the map, independent of the order of its entries.
    pub fn hash(&self) -> (r: Result<u64, CollectionError>)
        ensures
            r == map_hash(self@),
    {
        proof {
            use_type_invariant(self);
        }
        let entries = self.value.to_vec();
        let mut keys: Vec<TrieKey> = Vec::new();
        let mut codes: Vec<u64> = Vec::new();
        let mut i: usize = 0;
        while i < entries.len()
            invariant
                0 <= i <= entries.len(),
                enumerates(entries@, self@),
                keys@.len() == i,
                codes@.len() == i,
                forall|j: int| 0 <= j < i ==> (#[trigger] keys@[j]) == entries@[j].0,
                forall|j: int| 0 <= j < i ==> entries@[j].1.hash is Some,
                forall|j: int| 0 <= j < i ==> codes@[j] as int == (entry_codes(self@))(#[trigger] keys@[j]),
            decreases entries.len() - i,
        {
            let (k, v) = entries[i];
            assert(self@.contains_key(k) && self@[k] == v);
            let vh = match v.hash {
                Some(h) => h,
                None => return Err(CollectionError::CapabilityFailure),
            };
            let two = vec![to_word(k.1), to_word(vh)];
            assert(word_writes(two@) =~= seq![spec_u64_to_le_bytes(word(k.1)), spec_u64_to_le_bytes(word(vh))]);
            let code = mix(&two);
            keys.push(k);
            codes.push(code);
            i = i + 1;
        }
        assert(values_hashable(self@)) by {
            assert forall|k: TrieKey| #[trigger] self@.contains_key(k) implies self@[k].hash is Some by {
                let j = choose|j: int| 0 <= j < entries@.len() && entries@[j].0 == k;
                assert(self@.contains_key(entries@[j].0));
            }
        }
        assert(enumerates_set(keys@, self@.dom())) by {
            assert forall|k: TrieKey| #[trigger] self@.dom().contains(k) implies exists|j: int| 0 <= j < keys@.len() && keys@[j] == k by {
                assert(self@.contains_key(k));
                let j = choose|j: int| 0 <= j < entries@.len() && entries@[j].0 == k;
                assert(keys@[j] == k);
            }
            assert forall|a: int, b: int| 0 <= a < b < keys@.len() implies keys@[a] != keys@[b] by {
                assert(keys@[a] == entries@[a].0);
                assert(keys@[b] == entries@[b].0);
            }
            assert forall|a: int| 0 <= a < keys@.len() implies #[trigger] self@.dom().contains(keys@[a]) by {
                assert(keys@[a] == entries@[a].0);
                assert(self@.contains_key(entries@[a].0));
            }
        }
        let sum = sum_listing(&keys, &codes, Ghost(self@.dom()), Ghost(entry_codes(self@)));
        Ok(hash_size_and_sum(keys.len(), sum))
    }

    /// The written-out form of the map, as in `pmap({1: 2, 3: 4})`, entries in the trie's order.
    pub fn to_string(&self) -> (r: String)
        ensures
            exists|pairs: Seq<(Object, Object)>| lists_items(pairs, self@) && r@ == "pmap({"@ + joined_pairs(pairs) + "})"@,
    {
        let mut out = String::from_str("pmap({");
        let items = self.items();
        write_joined_pairs(&mut out, &items);
        out.append("})");
        out
    }

    /// Whether both maps hold the same entries.
    pub fn equals(&self, other: &PMap) -> (r: bool)
        ensures
            r == (self@ == other@),
    {
        self.value.equals(&other.value)
    }
}

/// The map of `pairs`, inserted in order, so a later pair wins over an earlier equal key.
pub fn pmap(pairs: &Vec<(Object, Object)>) -> (r: Result<PMap, CollectionError>)
    requires
        pairs@.len() < usize::MAX,
    ensures
        insert_all(no_entries(), pairs@) matches Ok(m) ==> (r matches Ok(t) && t@ == m),
        insert_all(no_entries(), pairs@) matches Err(e) ==> r == Err::<PMap, CollectionError>(e),
{
    let empty = PMap::new();
    empty.update(pairs)
}

/// The map of the given pairs, built as `pmap` builds it.
pub fn m(pairs: &Vec<(Object, Object)>) -> (r: Result<PMap, CollectionError>)
    requires
        pairs@.len() < usize::MAX,
    ensures
        insert_all(no_entries(), pairs@) matches Ok(m) ==> (r matches Ok(t) && t@ == m),
        insert_all(no_entries(), pairs@) matches Err(e) ==> r == Err::<PMap, CollectionError>(e),
{
    pmap(pairs)
}

} // verus!

verus! {

/// The entries after `edits`, applied in order to `m`: a pair with a value sets
/// its key to that value, a pair without one removes its key. An edit whose key
/// refuses to be hashed fails and leaves the entries as they were.
pub open spec fn apply_edits(m: Map<TrieKey, Object>, edits: Seq<(Object, Option<Object>)>) -> Map<TrieKey, Object>
    decreases edits.len(),
{
    if edits.len() == 0 {
        m
    } else {
        let prev = apply_edits(m, edits.drop_last());
        let k = edits.last().0;
        if k.hash is None {
            prev
        } else {
            match edits.last().1 {
                Some(v) => prev.insert(key_of(k), v),
                None => prev.remove(key_of(k)),
            }
        }
    }
}

/// Whether the last of `edits` that names `key` sets it, rather than removes it.
pub open spec fn last_edit_sets(edits: Seq<(Object, Option<Object>)>, key: TrieKey) -> bool
    decreases edits.len(),
{
    if edits.len() == 0 {
        false
    } else if edits.last().0.hash is Some && key_of(edits.last().0) == key {
        edits.last().1 is Some
    } else {
        last_edit_sets(edits.drop_last(), key)
    }
}

/// After any history of insertions and removals from the empty map, a key is
/// present exactly when the last edit that named it was an insertion; so the
/// size counts exactly the keys that a lookup finds.
pub proof fn lemma_edit_history(edits: Seq<(Object, Option<Object>)>)
    ensures
        apply_edits(no_entries(), edits).dom().finite(),
        apply_edits(no_entries(), edits).dom() == Set::new(|k: TrieKey| last_edit_sets(edits, k)),
    decreases edits.len(),
{
    if edits.len() > 0 {
        lemma_edit_history(edits.drop_last());
        assert(apply_edits(no_entries(), edits).dom() =~= Set::new(|k: TrieKey| last_edit_sets(edits, k)));
    } else {
        assert(apply_edits(no_entries(), edits).dom() =~= Set::new(|k: TrieKey| last_edit_sets(edits, k)));
    }
}

} // verus!
