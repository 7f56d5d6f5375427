use vstd::prelude::*;
use crate::backing::{enumerates_set, set_members, TrieKey, TrieSet};
use crate::error::CollectionError;
use crate::map::{key_of, object_of, trie_key};
use crate::object::{joined_reprs, write_joined, Object};
use vstd::string::StringExecFns;
use crate::hashing::{hash_size_and_sum, mix, set_sum, sum_listing, to_word, unordered_hash, word, word_writes};
use vstd::bytes::spec_u64_to_le_bytes;
use std::collections::hash_map::DefaultHasher;
use vstd::std_specs::hash::DefaultHasherAdditionalSpecFns;

verus! {

/// Whether `objects` lists the members of `s` exactly once each, as objects.
pub open spec fn lists_members(objects: Seq<Object>, s: Set<TrieKey>) -> bool {
    &&& objects.len() == s.len()
    &&& forall|i: int| 0 <= i < objects.len() ==> (#[trigger] objects[i]).hash is Some && s.contains(key_of(objects[i]))
    &&& forall|i: int, j: int| 0 <= i < j < objects.len() ==> objects[i] != objects[j]
    &&& forall|k: TrieKey| #[trigger] s.contains(k) ==> exists|i: int| 0 <= i < objects.len() && objects[i] == object_of(k)
}

/// What adding each of `items` in turn makes of `s`; the first element that
/// refuses to be hashed ends it.
pub open spec fn add_all(s: Set<TrieKey>, items: Seq<Object>) -> Result<Set<TrieKey>, CollectionError>
    decreases items.len(),
{
    if items.len() == 0 {
        Ok(s)
    } else if items[0].hash is None {
        Err(CollectionError::CapabilityFailure)
    } else {
        add_all(s.insert(key_of(items[0])), items.drop_first())
    }
}

/// The hash that a member contributes: its hash, mixed.
pub open spec fn member_code(k: TrieKey) -> int {
    DefaultHasher::spec_finish(seq![spec_u64_to_le_bytes(word(k.1))]) as int
}

/// `member_code` as a function value.
pub open spec fn member_codes() -> spec_fn(TrieKey) -> int {
    |k: TrieKey| member_code(k)
}

/// The hash of a set: its size and the wrapped sum of its members' codes, so
/// that equal sets hash alike whatever order their tries list them in.
pub open spec fn set_hash(s: Set<TrieKey>) -> u64 {
    unordered_hash(s.len(), set_sum(s, member_codes()))
}

/// The set without members.
pub open spec fn no_members() -> Set<TrieKey> {
    Set::empty()
}

/// A persistent hash-trie set of hashable objects.
pub struct PSet {
    value: TrieSet,
}

impl View for PSet {
    type V = Set<TrieKey>;

    /// The keys of the members.
    closed spec fn view(&self) -> Set<TrieKey> {
        set_members(self.value)
    }
}

impl PSet {
    /// A set holds finitely many members.
    #[verifier::type_invariant]
    spec fn finitely_many(self) -> bool {
        set_members(self.value).finite()
    }

    /// The empty set.
    pub fn new() -> (r: PSet)
        ensures
            r@ == no_members(),
    {
        PSet { value: TrieSet::new() }
    }

    /// A set with `py_object` among its members.
    pub fn add(&self, py_object: Object) -> (r: Result<PSet, CollectionError>)
        requires
            self@.len() < usize::MAX,
        ensures
            py_object.hash is None ==> r == Err::<PSet, CollectionError>(CollectionError::CapabilityFailure),
            py_object.hash is Some ==> (r matches Ok(t) && t@ == self@.insert(key_of(py_object))),
    {
        proof {
            use_type_invariant(self);
        }
        let key = match trie_key(&py_object) {
            Ok(k) => k,
            Err(e) => return Err(e),
        };
        Ok(PSet { value: self.value.insert(key) })
    }

    /// A set without `py_object`; an absent element leaves the members as they were.
    pub fn discard(&self, py_object: Object) -> (r: Result<PSet, CollectionError>)
        ensures
            py_object.hash is None ==> r == Err::<PSet, CollectionError>(CollectionError::CapabilityFailure),
            py_object.hash is Some ==> (r matches Ok(t) && t@ == self@.remove(key_of(py_object))),
    {
        proof {
            use_type_invariant(self);
        }
        let key = match trie_key(&py_object) {
            Ok(k) => k,
            Err(e) => return Err(e),
        };
        Ok(PSet { value: self.value.remove(&key) })
    }

    /// A set without `py_object`, which must be a member.
    pub fn remove(&self, py_object: Object) -> (r: Result<PSet, CollectionError>)
        ensures
            py_object.hash is None ==> r == Err::<PSet, CollectionError>(CollectionError::CapabilityFailure),
            py_object.hash is Some && !self@.contains(key_of(py_object)) ==> r == Err::<PSet, CollectionError>(CollectionError::KeyNotFound),
            py_object.hash is Some && self@.contains(key_of(py_object)) ==> (r matches Ok(t) && t@ == self@.remove(key_of(py_object))),
    {
        proof {
            use_type_invariant(self);
        }
        let key = match trie_key(&py_object) {
            Ok(k) => k,
            Err(e) => return Err(e),
        };
        if !self.value.contains(&key) {
            return Err(CollectionError::KeyNotFound);
        }
        Ok(PSet { value: self.value.remove(&key) })
    }

    /// Whether `py_object` is a member.
    pub fn contains(&self, py_object: Object) -> (r: Result<bool, CollectionError>)
        ensures
            py_object.hash is None ==> r == Err::<bool, CollectionError>(CollectionError::CapabilityFailure),
            py_object.hash is Some ==> r == Ok::<bool, CollectionError>(self@.contains(key_of(py_object))),
    {
        let key = match trie_key(&py_object) {
            Ok(k) => k,
            Err(e) => return Err(e),
        };
        Ok(self.value.contains(&key))
    }

    /// The number of members.
    pub fn len(&self) -> (r: usize)
        ensures
            self@.finite(),
            r == self@.len(),
    {
        proof {
            use_type_invariant(self);
        }
        self.value.size()
    }

    /// Whether no member of `self` is a member of `other`.
    pub fn isdisjoint(&self, other: &PSet) -> (r: bool)
        ensures
            r == self@.disjoint(other@),
    {
        self.value.is_disjoint(&other.value)
    }

    /// A set with each of `items` added in turn; an element that refuses to be
    /// hashed fails the whole call.
    pub fn update(&self, items: &Vec<Object>) -> (r: Result<PSet, CollectionError>)
        requires
            self@.len() + items@.len() < usize::MAX,
        ensures
            add_all(self@, items@) matches Ok(s) ==> (r matches Ok(t) && t@ == s),
            add_all(self@, items@) matches Err(e) ==> r == Err::<PSet, CollectionError>(e),
    {
        proof {
            use_type_invariant(self);
        }
        let mut set = PSet { value: self.value.share() };
        let mut i: usize = 0;
        assert(items@.subrange(0, items@.len() as int) =~= items@);
        while i < items.len()
            invariant
                0 <= i <= items.len(),
                self@.len() + items@.len() < usize::MAX,
                set@.finite(),
                set@.len() <= self@.len() + i,
                add_all(self@, items@) == add_all(set@, items@.subrange(i as int, items@.len() as int)),
            decreases items.len() - i,
        {
            assert(items@.subrange(i as int, items@.len() as int).drop_first() =~= items@.subrange(i + 1, items@.len() as int));
            set = match set.add(items[i]) {
                Ok(t) => t,
                Err(e) => return Err(e),
            };
            i = i + 1;
        }
        assert(items@.subrange(i as int, items@.len() as int) =~= Seq::<Object>::empty());
        Ok(set)
    }

    /// The members, each once, in the trie's order.
    pub fn to_vec(&self) -> (r: Vec<Object>)
        ensures
            lists_members(r@, self@),
    {
        let keys = self.value.to_vec();
        let mut objects: Vec<Object> = Vec::new();
        let mut i: usize = 0;
        while i < keys.len()
            invariant
                0 <= i <= keys.len(),
                enumerates_set(keys@, self@),
                objects@.len() == i,
                forall|j: int| 0 <= j < i ==> (#[trigger] objects@[j]) == object_of(keys@[j]),
            decreases keys.len() - i,
        {
            let k = keys[i];
            objects.push(Object { value: k.0, hash: Some(k.1) });
            i = i + 1;
        }
        assert forall|k: TrieKey| #[trigger] self@.contains(k) implies exists|i: int| 0 <= i < objects@.len() && objects@[i] == object_of(k) by {
            let j = choose|j: int| 0 <= j < keys@.len() && keys@[j] == k;
            assert(objects@[j] == object_of(k));
        }
        assert forall|a: int, b: int| 0 <= a < b < objects@.len() implies objects@[a] != objects@[b] by {
            assert(keys@[a] != keys@[b]);
        }
        assert forall|a: int| 0 <= a < objects@.len() implies (#[trigger] objects@[a]).hash is Some && self@.contains(key_of(objects@[a])) by {
            assert(key_of(objects@[a]) == keys@[a]);
        }
        objects
    }

    /// The hash of the set, independent of the order of its members.
    pub fn hash(&self) -> (r: u64)
        ensures
            r == set_hash(self@),
    {
        proof {
            use_type_invariant(self);
        }
        let keys = self.value.to_vec();
        let mut codes: Vec<u64> = Vec::new();
        let mut i: usize = 0;
        while i < keys.len()
            invariant
                0 <= i <= keys.len(),
                codes@.len() == i,
                forall|j: int| 0 <= j < i ==> codes@[j] as int == (member_codes())(#[trigger] keys@[j]),
            decreases keys.len() - i,
        {
            let one = vec![to_word(keys[i].1)];
            assert(word_writes(one@) =~= seq![spec_u64_to_le_bytes(word(keys@[i as int].1))]);
            let code = mix(&one);
            codes.push(code);
            i = i + 1;
        }
        let sum = sum_listing(&keys, &codes, Ghost(self@), Ghost(member_codes()));
        hash_size_and_sum(keys.len(), sum)
    }

    /// The written-out form of the set, as in `pset([1, 2])`, members in the trie's order.
    pub fn to_string(&self) -> (r: String)
        ensures
            exists|objects: Seq<Object>| lists_members(objects, self@) && r@ == "pset(["@ + joined_reprs(objects) + "])"@,
    {
        let mut out = String::from_str("pset([");
        let items = self.to_vec();
        write_joined(&mut out, &items);
        out.append("])");
        out
    }

    /// Whether both sets hold the same members.
    pub fn equals(&self, other: &PSet) -> (r: bool)
        ensures
            r == (self@ == other@),
    {
        self.value.equals(&other.value)
    }
}

/// The set of `items`.
pub fn pset(items: &Vec<Object>) -> (r: Result<PSet, CollectionError>)
    requires
        items@.len() < usize::MAX,
    ensures
        add_all(no_members(), items@) matches Ok(s) ==> (r matches Ok(t) && t@ == s),
        add_all(no_members(), items@) matches Err(e) ==> r == Err::<PSet, CollectionError>(e),
{
    let empty = PSet::new();
    empty.update(items)
}

/// The set of the given elements, built as `pset` builds it.
pub fn s(items: &Vec<Object>) -> (r: Result<PSet, CollectionError>)
    requires
        items@.len() < usize::MAX,
    ensures
        add_all(no_members(), items@) matches Ok(s) ==> (r matches Ok(t) && t@ == s),
        add_all(no_members(), items@) matches Err(e) ==> r == Err::<PSet, CollectionError>(e),
{
    pset(items)
}

} // verus!
