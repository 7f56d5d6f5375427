//! The persistent structures of the `rpds` crate, held opaque.
//!
//! Each holder keeps one `rpds` value in a private field. What it contains is
//! named by an uninterpreted spec function, and every `rpds` method that the
//! library calls has one wrapper here whose contract speaks of that name.
use vstd::prelude::*;
use crate::object::Object;

verus! {

/// An `rpds::List` of objects, first element at the front.
#[verifier::external_body]
pub struct SharedList {
    inner: rpds::List<Object>,
}

/// The elements of a shared list, front first.
pub uninterp spec fn list_items(l: SharedList) -> Seq<Object>;

impl SharedList {
    /// Relies on rpds::List::new: a list with no elements.
    #[verifier::external_body]
    pub(crate) fn new() -> (r: SharedList)
        ensures
            list_items(r) == Seq::<Object>::empty(),
    {
        SharedList { inner: rpds::List::new() }
    }

    /// Relies on rpds::List::push_front: the new list is `v` followed by the old one,
    /// whose length counter must not overflow.
    #[verifier::external_body]
    pub(crate) fn push_front(&self, v: Object) -> (r: SharedList)
        requires
            list_items(*self).len() < usize::MAX,
        ensures
            list_items(r) == seq![v] + list_items(*self),
    {
        SharedList { inner: self.inner.push_front(v) }
    }

    /// Relies on rpds::List::drop_first: `None` on an empty list, else the list
    /// without its first element.
    #[verifier::external_body]
    pub(crate) fn drop_first(&self) -> (r: Option<SharedList>)
        ensures
            list_items(*self).len() == 0 <==> r is None,
            r matches Some(t) ==> list_items(t) == list_items(*self).drop_first(),
    {
        self.inner.drop_first().map(|inner| SharedList { inner })
    }

    /// Relies on rpds::List::first: the front element, if any.
    #[verifier::external_body]
    pub(crate) fn first(&self) -> (r: Option<Object>)
        ensures
            list_items(*self).len() == 0 ==> r is None,
            list_items(*self).len() > 0 ==> r == Some(list_items(*self)[0]),
    {
        self.inner.first().copied()
    }

    /// Relies on rpds::List::last: the back element, if any.
    #[verifier::external_body]
    pub(crate) fn last(&self) -> (r: Option<Object>)
        ensures
            list_items(*self).len() == 0 ==> r is None,
            list_items(*self).len() > 0 ==> r == Some(list_items(*self).last()),
    {
        self.inner.last().copied()
    }

    /// Relies on rpds::List::reverse: the same elements in the opposite order.
    #[verifier::external_body]
    pub(crate) fn reverse(&self) -> (r: SharedList)
        ensures
            list_items(r) == list_items(*self).reverse(),
    {
        SharedList { inner: self.inner.reverse() }
    }

    /// Relies on rpds::List::len: the number of elements.
    #[verifier::external_body]
    pub(crate) fn len(&self) -> (r: usize)
        ensures
            r == list_items(*self).len(),
    {
        self.inner.len()
    }

    /// Relies on rpds::List::iter: every element, front first.
    #[verifier::external_body]
    pub(crate) fn to_vec(&self) -> (r: Vec<Object>)
        ensures
            r@ == list_items(*self),
    {
        self.inner.iter().copied().collect()
    }

    /// Relies on rpds's `PartialEq` for `List`: equal lengths and equal elements
    /// position by position.
    #[verifier::external_body]
    pub(crate) fn equals(&self, other: &SharedList) -> (r: bool)
        ensures
            r == (list_items(*self) == list_items(*other)),
    {
        self.inner == other.inner
    }
}

/// An `rpds::Vector` of objects, indexed from zero.
#[verifier::external_body]
pub struct SharedVector {
    inner: rpds::Vector<Object>,
}

/// The elements of a shared vector, in index order.
pub uninterp spec fn vector_items(v: SharedVector) -> Seq<Object>;

impl SharedVector {
    /// Relies on rpds::Vector::new: a vector with no elements.
    #[verifier::external_body]
    pub(crate) fn new() -> (r: SharedVector)
        ensures
            vector_items(r) == Seq::<Object>::empty(),
    {
        SharedVector { inner: rpds::Vector::new() }
    }

    /// Relies on rpds::Vector::push_back: the old elements followed by `v`; the
    /// length counter must not overflow.
    #[verifier::external_body]
    pub(crate) fn push_back(&self, v: Object) -> (r: SharedVector)
        requires
            vector_items(*self).len() < usize::MAX,
        ensures
            vector_items(r) == vector_items(*self).push(v),
    {
        SharedVector { inner: self.inner.push_back(v) }
    }

    /// Relies on rpds::Vector::set: `None` when `index` is not below the length,
    /// else the vector with the element at `index` replaced by `v`.
    #[verifier::external_body]
    pub(crate) fn set(&self, index: usize, v: Object) -> (r: Option<SharedVector>)
        ensures
            index >= vector_items(*self).len() <==> r is None,
            r matches Some(t) ==> vector_items(t) == vector_items(*self).update(index as int, v),
    {
        self.inner.set(index, v).map(|inner| SharedVector { inner })
    }

    /// Relies on rpds::Vector::get: the element at `index`, `None` past the end.
    #[verifier::external_body]
    pub(crate) fn get(&self, index: usize) -> (r: Option<Object>)
        ensures
            index >= vector_items(*self).len() ==> r is None,
            index < vector_items(*self).len() ==> r == Some(vector_items(*self)[index as int]),
    {
        self.inner.get(index).copied()
    }

    /// Relies on rpds::Vector::drop_last: `None` on an empty vector, else the
    /// vector without its last element.
    #[verifier::external_body]
    pub(crate) fn drop_last(&self) -> (r: Option<SharedVector>)
        ensures
            vector_items(*self).len() == 0 <==> r is None,
            r matches Some(t) ==> vector_items(t) == vector_items(*self).drop_last(),
    {
        self.inner.drop_last().map(|inner| SharedVector { inner })
    }

    /// Relies on rpds::Vector::len: the number of elements.
    #[verifier::external_body]
    pub(crate) fn len(&self) -> (r: usize)
        ensures
            r == vector_items(*self).len(),
    {
        self.inner.len()
    }

    /// Relies on rpds::Vector::iter: every element, in index order.
    #[verifier::external_body]
    pub(crate) fn to_vec(&self) -> (r: Vec<Object>)
        ensures
            r@ == vector_items(*self),
    {
        self.inner.iter().copied().collect()
    }

    /// Relies on rpds's `PartialEq` for `Vector`: equal lengths and equal elements
    /// index by index.
    #[verifier::external_body]
    pub(crate) fn equals(&self, other: &SharedVector) -> (r: bool)
        ensures
            r == (vector_items(*self) == vector_items(*other)),
    {
        self.inner == other.inner
    }

    /// Relies on rpds's `Clone` for `Vector`: a handle to the same elements.
    #[verifier::external_body]
    pub(crate) fn share(&self) -> (r: SharedVector)
        ensures
            vector_items(r) == vector_items(*self),
    {
        SharedVector { inner: self.inner.clone() }
    }
}

/// Whether `entries` lists each entry of `m` exactly once, in some order.
pub open spec fn enumerates<K, V>(entries: Seq<(K, V)>, m: Map<K, V>) -> bool {
    &&& entries.len() == m.dom().len()
    &&& forall|i: int| 0 <= i < entries.len() ==> #[trigger] m.contains_key(entries[i].0) && m[entries[i].0] == entries[i].1
    &&& forall|i: int, j: int| 0 <= i < j < entries.len() ==> entries[i].0 != entries[j].0
    &&& forall|k: K| #[trigger] m.contains_key(k) ==> exists|i: int| 0 <= i < entries.len() && entries[i].0 == k
}

/// Whether `members` lists each member of `s` exactly once, in some order.
pub open spec fn enumerates_set<K>(members: Seq<K>, s: Set<K>) -> bool {
    &&& members.len() == s.len()
    &&& forall|i: int| 0 <= i < members.len() ==> #[trigger] s.contains(members[i])
    &&& forall|i: int, j: int| 0 <= i < j < members.len() ==> members[i] != members[j]
    &&& forall|k: K| #[trigger] s.contains(k) ==> exists|i: int| 0 <= i < members.len() && members[i] == k
}

/// The key under which the tries file a hashable object: its value and its hash.
pub type TrieKey = (i64, i64);

/// An `rpds::HashTrieMap` from `(value, hash)` keys to objects.
#[verifier::external_body]
pub struct TrieMap {
    inner: rpds::HashTrieMap<TrieKey, Object>,
}

/// The map without entries.
pub open spec fn no_entries() -> Map<TrieKey, Object> {
    Map::empty()
}

/// The entries of a trie map.
pub uninterp spec fn map_entries(m: TrieMap) -> Map<TrieKey, Object>;

impl TrieMap {
    /// Relies on rpds::HashTrieMap::new: a map with no entries.
    #[verifier::external_body]
    pub(crate) fn new() -> (r: TrieMap)
        ensures
            map_entries(r) == no_entries(),
    {
        TrieMap { inner: rpds::HashTrieMap::new() }
    }

    /// Relies on rpds::HashTrieMap::insert: `key` maps to `value`, replacing the
    /// entry of an equal key; the size counter must not overflow.
    #[verifier::external_body]
    pub(crate) fn insert(&self, key: TrieKey, value: Object) -> (r: TrieMap)
        requires
            map_entries(*self).dom().len() < usize::MAX,
        ensures
            map_entries(r) == map_entries(*self).insert(key, value),
    {
        TrieMap { inner: self.inner.insert(key, value) }
    }

    /// Relies on rpds::HashTrieMap::remove: the map without an entry for `key`.
    #[verifier::external_body]
    pub(crate) fn remove(&self, key: &TrieKey) -> (r: TrieMap)
        ensures
            map_entries(r) == map_entries(*self).remove(*key),
    {
        TrieMap { inner: self.inner.remove(key) }
    }

    /// Relies on rpds::HashTrieMap::get: the value that `key` maps to, if any.
    #[verifier::external_body]
    pub(crate) fn get(&self, key: &TrieKey) -> (r: Option<Object>)
        ensures
            !map_entries(*self).contains_key(*key) ==> r is None,
            map_entries(*self).contains_key(*key) ==> r == Some(map_entries(*self)[*key]),
    {
        self.inner.get(key).copied()
    }

    /// Relies on rpds::HashTrieMap::size: the number of entries.
    #[verifier::external_body]
    pub(crate) fn size(&self) -> (r: usize)
        ensures
            r == map_entries(*self).dom().len(),
    {
        self.inner.size()
    }

    /// Relies on rpds::HashTrieMap::iter: every entry once, in an order of the trie's own.
    #[verifier::external_body]
    pub(crate) fn to_vec(&self) -> (r: Vec<(TrieKey, Object)>)
        ensures
            enumerates(r@, map_entries(*self)),
    {
        self.inner.iter().map(|(k, v)| (*k, *v)).collect()
    }

    /// Relies on rpds's `PartialEq` for `HashTrieMap`: equal sizes, and each key of
    /// one maps to an equal value in the other.
    #[verifier::external_body]
    pub(crate) fn equals(&self, other: &TrieMap) -> (r: bool)
        ensures
            r == (map_entries(*self) == map_entries(*other)),
    {
        self.inner == other.inner
    }

    /// Relies on rpds's `Clone` for `HashTrieMap`: a handle to the same entries.
    #[verifier::external_body]
    pub(crate) fn share(&self) -> (r: TrieMap)
        ensures
            map_entries(r) == map_entries(*self),
    {
        TrieMap { inner: self.inner.clone() }
    }
}

/// An `rpds::HashTrieSet` of `(value, hash)` keys.
#[verifier::external_body]
pub struct TrieSet {
    inner: rpds::HashTrieSet<TrieKey>,
}

/// The members of a trie set.
pub uninterp spec fn set_members(s: TrieSet) -> Set<TrieKey>;

impl TrieSet {
    /// Relies on rpds::HashTrieSet::new: a set with no members.
    #[verifier::external_body]
    pub(crate) fn new() -> (r: TrieSet)
        ensures
            set_members(r) == Set::<TrieKey>::empty(),
    {
        TrieSet { inner: rpds::HashTrieSet::new() }
    }

    /// Relies on rpds::HashTrieSet::insert: the set with `key` among its members;
    /// the size counter must not overflow.
    #[verifier::external_body]
    pub(crate) fn insert(&self, key: TrieKey) -> (r: TrieSet)
        requires
            set_members(*self).len() < usize::MAX,
        ensures
            set_members(r) == set_members(*self).insert(key),
    {
        TrieSet { inner: self.inner.insert(key) }
    }

    /// Relies on rpds::HashTrieSet::remove: the set without `key`.
    #[verifier::external_body]
    pub(crate) fn remove(&self, key: &TrieKey) -> (r: TrieSet)
        ensures
            set_members(r) == set_members(*self).remove(*key),
    {
        TrieSet { inner: self.inner.remove(key) }
    }

    /// Relies on rpds::HashTrieSet::contains: whether `key` is a member.
    #[verifier::external_body]
    pub(crate) fn contains(&self, key: &TrieKey) -> (r: bool)
        ensures
            r == set_members(*self).contains(*key),
    {
        self.inner.contains(key)
    }

    /// Relies on rpds::HashTrieSet::size: the number of members.
    #[verifier::external_body]
    pub(crate) fn size(&self) -> (r: usize)
        ensures
            r == set_members(*self).len(),
    {
        self.inner.size()
    }

    /// Relies on rpds::HashTrieSet::is_disjoint: no member of one is a member of the other.
    #[verifier::external_body]
    pub(crate) fn is_disjoint(&self, other: &TrieSet) -> (r: bool)
        ensures
            r == set_members(*self).disjoint(set_members(*other)),
    {
        self.inner.is_disjoint(&other.inner)
    }

    /// Relies on rpds::HashTrieSet::iter: every member once, in an order of the trie's own.
    #[verifier::external_body]
    pub(crate) fn to_vec(&self) -> (r: Vec<TrieKey>)
        ensures
            enumerates_set(r@, set_members(*self)),
    {
        self.inner.iter().copied().collect()
    }

    /// Relies on rpds's `PartialEq` for `HashTrieSet`: the same members.
    #[verifier::external_body]
    pub(crate) fn equals(&self, other: &TrieSet) -> (r: bool)
        ensures
            r == (set_members(*self) == set_members(*other)),
    {
        self.inner == other.inner
    }

    /// Relies on rpds's `Clone` for `HashTrieSet`: a handle to the same members.
    #[verifier::external_body]
    pub(crate) fn share(&self) -> (r: TrieSet)
        ensures
            set_members(r) == set_members(*self),
    {
        TrieSet { inner: self.inner.clone() }
    }
}

} // verus!
