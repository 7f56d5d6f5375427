use vstd::prelude::*;
use crate::backing::{list_items, SharedList};
use crate::error::CollectionError;
use crate::object::{extract_py_object, hash_ordered, ordered_hash, Object};

verus! {

/// A persistent singly-linked list. Every operation leaves the receiver as it was
/// and returns a new version that shares the untouched tail with it.
pub struct List {
    value: SharedList,
}

impl View for List {
    type V = Seq<Object>;

    /// The elements, front first.
    closed spec fn view(&self) -> Seq<Object> {
        list_items(self.value)
    }
}

impl List {
    /// The empty list.
    pub fn new() -> (r: List)
        ensures
            r@ == Seq::<Object>::empty(),
    {
        List { value: SharedList::new() }
    }

    /// A list with `py_object` in front of the elements of `self`.
    pub fn push_front(&self, py_object: Object) -> (r: List)
        requires
            self@.len() < usize::MAX,
        ensures
            r@ == seq![py_object] + self@,
    {
        List { value: self.value.push_front(py_object) }
    }

    /// The list without its first element; an empty list has none to drop.
    pub fn drop_first(&self) -> (r: Result<List, CollectionError>)
        ensures
            self@.len() == 0 ==> r == Err::<List, CollectionError>(CollectionError::EmptyCollection),
            self@.len() > 0 ==> (r matches Ok(t) && t@ == self@.drop_first()),
    {
        match self.value.drop_first() {
            Some(value) => Ok(List { value }),
            None => Err(CollectionError::EmptyCollection),
        }
    }

    /// The elements in the opposite order, in nodes of their own.
    pub fn reverse(&self) -> (r: List)
        ensures
            r@ == self@.reverse(),
    {
        List { value: self.value.reverse() }
    }

    /// The front element.
    pub fn first(&self) -> (r: Result<Object, CollectionError>)
        ensures
            self@.len() == 0 ==> r == Err::<Object, CollectionError>(CollectionError::EmptyCollection),
            self@.len() > 0 ==> r == Ok::<Object, CollectionError>(self@[0]),
    {
        let f = self.value.first();
        match f {
            Some(o) => extract_py_object(Some(&o)),
            None => extract_py_object(None),
        }
    }

    /// The back element.
    pub fn last(&self) -> (r: Result<Object, CollectionError>)
        ensures
            self@.len() == 0 ==> r == Err::<Object, CollectionError>(CollectionError::EmptyCollection),
            self@.len() > 0 ==> r == Ok::<Object, CollectionError>(self@.last()),
    {
        let f = self.value.last();
        match f {
            Some(o) => extract_py_object(Some(&o)),
            None => extract_py_object(None),
        }
    }

    /// The number of elements.
    pub fn len(&self) -> (r: usize)
        ensures
            r == self@.len(),
    {
        self.value.len()
    }

    /// The elements, front first.
    pub fn to_vec(&self) -> (r: Vec<Object>)
        ensures
            r@ == self@,
    {
        self.value.to_vec()
    }

    /// Whether both lists hold equal elements in the same order.
    pub fn equals(&self, other: &List) -> (r: bool)
        ensures
            r == (self@ == other@),
    {
        self.value.equals(&other.value)
    }

    /// The order-sensitive hash of the list: its length, then each element's hash.
    pub fn hash(&self) -> (r: Result<u64, CollectionError>)
        ensures
            r == ordered_hash(self@),
    {
        let items = self.value.to_vec();
        hash_ordered(&items)
    }
}

/// Pushes each of `items` to the front in turn, so the last one ends up first.
pub fn plist(items: &Vec<Object>) -> (r: List)
    ensures
        r@ == items@.reverse(),
{
    let mut list = List::new();
    let mut i: usize = 0;
    while i < items.len()
        invariant
            0 <= i <= items.len(),
            list@ == items@.subrange(0, i as int).reverse(),
        decreases items.len() - i,
    {
        list = list.push_front(items[i]);
        i = i + 1;
        assert(items@.subrange(0, i as int).reverse() =~= seq![items@[i - 1]] + items@.subrange(0, i - 1).reverse());
    }
    assert(items@.subrange(0, i as int) =~= items@);
    list
}

/// The list of the given elements, built as `plist` builds it.
pub fn l(items: &Vec<Object>) -> (r: List)
    ensures
        r@ == items@.reverse(),
{
    plist(items)
}

} // verus!

verus! {

/// Lists are ordered: the same two distinct elements in the two orders make
/// unequal lists.
pub proof fn lemma_order_matters(a: Object, b: Object)
    requires
        a != b,
    ensures
        seq![a, b] != seq![b, a],
{
    assert(seq![a, b][0] != seq![b, a][0]);
}

/// Reversing a list twice gives back its elements in their order.
pub proof fn lemma_reverse_twice(l: List)
    ensures
        l@.reverse().reverse() == l@,
{
    assert(l@.reverse().reverse() =~= l@);
}

} // verus!
