use vstd::prelude::*;
use crate::backing::{vector_items, SharedVector};
use crate::error::CollectionError;
use crate::object::{extract_py_object, hash_ordered, joined_reprs, ordered_hash, write_joined, Object};
use vstd::string::StringExecFns;

verus! {

/// A persistent vector: a 32-way trie with a tail buffer, where a new version
/// copies only the path to the position it changes.
pub struct Vector {
    value: SharedVector,
}

impl View for Vector {
    type V = Seq<Object>;

    /// The elements, in index order.
    closed spec fn view(&self) -> Seq<Object> {
        vector_items(self.value)
    }
}

/// The position that `index` names in a sequence of length `len`: a negative
/// index counts back from the end.
pub open spec fn normalized(len: int, index: int) -> int {
    if index < 0 {
        index + len
    } else {
        index
    }
}

/// Whether `index` names an element of a sequence of length `len`.
pub open spec fn in_bounds(len: int, index: int) -> bool {
    0 <= normalized(len, index) < len
}

/// What `set` makes of the elements `s`.
pub open spec fn set_result(s: Seq<Object>, index: int, e: Object) -> Result<Seq<Object>, CollectionError> {
    if in_bounds(s.len() as int, index) {
        Ok(s.update(normalized(s.len() as int, index), e))
    } else {
        Err(CollectionError::IndexOutOfBounds)
    }
}

/// What setting each pair of `pairs` in turn makes of the elements `s`; the first
/// failure ends it.
pub open spec fn set_many(s: Seq<Object>, pairs: Seq<(isize, Object)>) -> Result<Seq<Object>, CollectionError>
    decreases pairs.len(),
{
    if pairs.len() == 0 {
        Ok(s)
    } else {
        match set_result(s, pairs[0].0 as int, pairs[0].1) {
            Ok(t) => set_many(t, pairs.drop_first()),
            Err(err) => Err(err),
        }
    }
}

/// How many elements of `s` equal `e`.
pub open spec fn count_of(s: Seq<Object>, e: Object) -> nat
    decreases s.len(),
{
    if s.len() == 0 {
        0
    } else {
        count_of(s.drop_last(), e) + if s.last() == e { 1nat } else { 0nat }
    }
}

/// Whether `i` is the first position of `e` in `s`.
pub open spec fn is_first_index(s: Seq<Object>, e: Object, i: int) -> bool {
    &&& 0 <= i < s.len()
    &&& s[i] == e
    &&& forall|j: int| 0 <= j < i ==> s[j] != e
}

impl Vector {
    /// The empty vector.
    pub fn new() -> (r: Vector)
        ensures
            r@ == Seq::<Object>::empty(),
    {
        Vector { value: SharedVector::new() }
    }

    /// The position that `index` names; one that counts back past the front is out of bounds.
    fn normalize_index(&self, index: isize) -> (r: Result<usize, CollectionError>)
        ensures
            normalized(self@.len() as int, index as int) < 0 ==> r == Err::<usize, CollectionError>(CollectionError::IndexOutOfBounds),
            normalized(self@.len() as int, index as int) >= 0 ==> (r matches Ok(i) && i as int == normalized(self@.len() as int, index as int)),
    {
        if index == 0 {
            return Ok(0);
        }
        let length = self.value.len() as i128;
        let mut i = index as i128;
        if i < 0 {
            i = i + length;
        }
        if i < 0 {
            return Err(CollectionError::IndexOutOfBounds);
        }
        Ok(i as usize)
    }

    /// A vector with the element at `index` replaced by `py_object`.
    pub fn set(&self, index: isize, py_object: Object) -> (r: Result<Vector, CollectionError>)
        ensures
            set_result(self@, index as int, py_object) matches Ok(s) ==> (r matches Ok(t) && t@ == s),
            set_result(self@, index as int, py_object) is Err ==> r == Err::<Vector, CollectionError>(CollectionError::IndexOutOfBounds),
    {
        let i = match self.normalize_index(index) {
            Ok(i) => i,
            Err(e) => return Err(e),
        };
        match self.value.set(i, py_object) {
            Some(value) => Ok(Vector { value }),
            None => Err(CollectionError::IndexOutOfBounds),
        }
    }

    /// A vector with `py_object` after the elements of `self`.
    pub fn append(&self, py_object: Object) -> (r: Vector)
        requires
            self@.len() < usize::MAX,
        ensures
            r@ == self@.push(py_object),
    {
        Vector { value: self.value.push_back(py_object) }
    }

    /// A vector with `items` after the elements of `self`.
    pub fn extend(&self, items: &Vec<Object>) -> (r: Vector)
        requires
            self@.len() + items@.len() <= usize::MAX,
        ensures
            r@ == self@ + items@,
    {
        let mut vector = Vector { value: self.value.share() };
        let mut i: usize = 0;
        while i < items.len()
            invariant
                0 <= i <= items.len(),
                self@.len() + items@.len() <= usize::MAX,
                vector@ == self@ + items@.subrange(0, i as int),
            decreases items.len() - i,
        {
            vector = vector.append(items[i]);
            i = i + 1;
            assert(self@ + items@.subrange(0, i as int) =~= (self@ + items@.subrange(0, i - 1)).push(items@[i - 1]));
        }
        assert(items@.subrange(0, i as int) =~= items@);
        vector
    }

    /// The vector without its last element; an empty vector has none to drop.
    pub fn drop_last(&self) -> (r: Result<Vector, CollectionError>)
        ensures
            self@.len() == 0 ==> r == Err::<Vector, CollectionError>(CollectionError::EmptyCollection),
            self@.len() > 0 ==> (r matches Ok(t) && t@ == self@.drop_last()),
    {
        match self.value.drop_last() {
            Some(value) => Ok(Vector { value }),
            None => Err(CollectionError::EmptyCollection),
        }
    }

    /// The element that `index` names.
    pub fn get(&self, index: isize) -> (r: Result<Object, CollectionError>)
        ensures
            in_bounds(self@.len() as int, index as int) ==> r == Ok::<Object, CollectionError>(self@[normalized(self@.len() as int, index as int)]),
            !in_bounds(self@.len() as int, index as int) ==> r == Err::<Object, CollectionError>(CollectionError::IndexOutOfBounds),
    {
        let i = match self.normalize_index(index) {
            Ok(i) => i,
            Err(e) => return Err(e),
        };
        if i >= self.value.len() {
            return Err(CollectionError::IndexOutOfBounds);
        }
        let found = self.value.get(i);
        match found {
            Some(o) => extract_py_object(Some(&o)),
            None => extract_py_object(None),
        }
    }

    /// The element at a position that the caller has already counted from the
    /// front, so that a negative index is out of bounds.
    pub fn get_item(&self, index: isize) -> (r: Result<Object, CollectionError>)
        ensures
            0 <= index < self@.len() ==> r == Ok::<Object, CollectionError>(self@[index as int]),
            !(0 <= index < self@.len()) ==> r == Err::<Object, CollectionError>(CollectionError::IndexOutOfBounds),
    {
        if index < 0 {
            return Err(CollectionError::IndexOutOfBounds);
        }
        self.get(index)
    }

    /// The first element.
    pub fn first(&self) -> (r: Result<Object, CollectionError>)
        ensures
            self@.len() == 0 ==> r == Err::<Object, CollectionError>(CollectionError::EmptyCollection),
            self@.len() > 0 ==> r == Ok::<Object, CollectionError>(self@[0]),
    {
        let found = self.value.get(0);
        match found {
            Some(o) => extract_py_object(Some(&o)),
            None => extract_py_object(None),
        }
    }

    /// The last element.
    pub fn last(&self) -> (r: Result<Object, CollectionError>)
        ensures
            self@.len() == 0 ==> r == Err::<Object, CollectionError>(CollectionError::EmptyCollection),
            self@.len() > 0 ==> r == Ok::<Object, CollectionError>(self@.last()),
    {
        let n = self.value.len();
        if n == 0 {
            return extract_py_object(None);
        }
        let found = self.value.get(n - 1);
        match found {
            Some(o) => extract_py_object(Some(&o)),
            None => extract_py_object(None),
        }
    }

    /// The first position that holds an element equal to `py_object`.
    pub fn index(&self, py_object: Object) -> (r: Result<usize, CollectionError>)
        ensures
            r matches Ok(i) ==> is_first_index(self@, py_object, i as int),
            r is Err ==> r == Err::<usize, CollectionError>(CollectionError::ElementNotFound),
            self@.contains(py_object) <==> r is Ok,
    {
        let n = self.value.len();
        let mut i: usize = 0;
        while i < n
            invariant
                0 <= i <= n,
                n == self@.len(),
                forall|j: int| 0 <= j < i ==> self@[j] != py_object,
            decreases n - i,
        {
            let element = self.value.get(i);
            if element == Some(py_object) {
                return Ok(i);
            }
            i = i + 1;
        }
        Err(CollectionError::ElementNotFound)
    }

    /// How many elements equal `py_object`.
    pub fn count(&self, py_object: Object) -> (r: usize)
        ensures
            r == count_of(self@, py_object),
    {
        let n = self.value.len();
        let mut count: usize = 0;
        let mut i: usize = 0;
        while i < n
            invariant
                0 <= i <= n,
                n == self@.len(),
                count == count_of(self@.subrange(0, i as int), py_object),
                count <= i,
            decreases n - i,
        {
            let element = self.value.get(i);
            assert(self@.subrange(0, i + 1).drop_last() =~= self@.subrange(0, i as int));
            if element == Some(py_object) {
                count = count + 1;
            }
            i = i + 1;
        }
        assert(self@.subrange(0, i as int) =~= self@);
        count
    }

    /// A vector without the first element equal to `py_object`.
    pub fn remove(&self, py_object: Object) -> (r: Result<Vector, CollectionError>)
        ensures
            !self@.contains(py_object) ==> r == Err::<Vector, CollectionError>(CollectionError::ElementNotFound),
            forall|i: int| is_first_index(self@, py_object, i) ==> (r matches Ok(t) && t@ == self@.remove(i)),
    {
        let at = match self.index(py_object) {
            Ok(at) => at,
            Err(e) => return Err(e),
        };
        let n = self.value.len();
        let mut vector = Vector::new();
        let mut i: usize = 0;
        while i < n
            invariant
                0 <= at < n,
                n == self@.len(),
                0 <= i <= n,
                i <= at ==> vector@ == self@.subrange(0, i as int),
                i > at ==> vector@ == self@.subrange(0, at as int) + self@.subrange(at + 1, i as int),
            decreases n - i,
        {
            if i != at {
                let element = self.value.get(i);
                match element {
                    Some(o) => {
                        vector = vector.append(o);
                    },
                    None => {},
                }
                if i < at {
                    assert(self@.subrange(0, i + 1) =~= self@.subrange(0, i as int).push(self@[i as int]));
                } else {
                    assert(self@.subrange(at + 1, i + 1) =~= self@.subrange(at + 1, i as int).push(self@[i as int]));
                }
            } else {
                assert(self@.subrange(at + 1, i + 1) =~= Seq::<Object>::empty());
            }
            i = i + 1;
        }
        assert forall|k: int| is_first_index(self@, py_object, k) implies k == at by {
            if k < at {
            } else if k > at {
                assert(self@[at as int] == py_object);
            }
        }
        assert(self@.subrange(0, at as int) + self@.subrange(at + 1, n as int) =~= self@.remove(at as int));
        Ok(vector)
    }

    /// A vector with each pair's element set at the pair's index, in turn; the
    /// first index out of bounds fails the whole call.
    pub fn mset(&self, pairs: &Vec<(isize, Object)>) -> (r: Result<Vector, CollectionError>)
        ensures
            set_many(self@, pairs@) matches Ok(s) ==> (r matches Ok(t) && t@ == s),
            set_many(self@, pairs@) matches Err(e) ==> r == Err::<Vector, CollectionError>(e),
    {
        let mut vector = Vector { value: self.value.share() };
        let mut i: usize = 0;
        assert(pairs@.subrange(0, pairs@.len() as int) =~= pairs@);
        while i < pairs.len()
            invariant
                0 <= i <= pairs.len(),
                set_many(self@, pairs@) == set_many(vector@, pairs@.subrange(i as int, pairs@.len() as int)),
            decreases pairs.len() - i,
        {
            let (index, element) = pairs[i];
            assert(pairs@.subrange(i as int, pairs@.len() as int).drop_first() =~= pairs@.subrange(i + 1, pairs@.len() as int));
            vector = match vector.set(index, element) {
                Ok(t) => t,
                Err(e) => return Err(e),
            };
            i = i + 1;
        }
        assert(pairs@.subrange(i as int, pairs@.len() as int) =~= Seq::<(isize, Object)>::empty());
        Ok(vector)
    }

    /// The number of elements.
    pub fn len(&self) -> (r: usize)
        ensures
            r == self@.len(),
    {
        self.value.len()
    }

    /// The elements, in index order.
    pub fn to_vec(&self) -> (r: Vec<Object>)
        ensures
            r@ == self@,
    {
        self.value.to_vec()
    }

    /// Whether both vectors hold equal elements in the same order.
    pub fn equals(&self, other: &Vector) -> (r: bool)
        ensures
            r == (self@ == other@),
    {
        self.value.equals(&other.value)
    }

    /// The written-out form of the vector, as in `pvector([1, 2])`.
    pub fn to_string(&self) -> (r: String)
        ensures
            r@ == "pvector(["@ + joined_reprs(self@) + "])"@,
    {
        let mut out = String::from_str("pvector([");
        let items = self.value.to_vec();
        write_joined(&mut out, &items);
        out.append("])");
        out
    }

    /// The order-sensitive hash of the vector: its length, then each element's hash.
    pub fn hash(&self) -> (r: Result<u64, CollectionError>)
        ensures
            r == ordered_hash(self@),
    {
        let items = self.value.to_vec();
        hash_ordered(&items)
    }
}

/// The vector of `items`, in their order.
pub fn pvector(items: &Vec<Object>) -> (r: Vector)
    ensures
        r@ == items@,
{
    let empty = Vector::new();
    let _n = items.len();
    let r = empty.extend(items);
    assert(empty@ + items@ =~= items@);
    r
}

/// The vector of the given elements, built as `pvector` builds it.
pub fn v(items: &Vec<Object>) -> (r: Vector)
    ensures
        r@ == items@,
{
    pvector(items)
}

} // verus!

verus! {

/// Setting an element at a valid index and reading that index back gives the
/// element that was set.
pub proof fn lemma_set_then_get(v: Vector, index: isize, e: Object)
    requires
        in_bounds(v@.len() as int, index as int),
    ensures
        set_result(v@, index as int, e) matches Ok(s) && in_bounds(s.len() as int, index as int) && s[normalized(s.len() as int, index as int)] == e,
{
}

/// Appending an element and dropping the last one gives back the same elements.
pub proof fn lemma_append_then_drop_last(v: Vector, e: Object)
    ensures
        v@.push(e).drop_last() == v@,
{
    assert(v@.push(e).drop_last() =~= v@);
}

} // verus!
