use vstd::prelude::*;
use vstd::string::StringExecFns;
use vstd::bytes::{spec_u64_to_le_bytes, u64_to_le_bytes};
use std::collections::hash_map::DefaultHasher;
use std::hash::Hasher;
use vstd::std_specs::hash::DefaultHasherAdditionalSpecFns;
use crate::error::CollectionError;
use crate::hashing::{to_word, word};

verus! {

/// An element as the collections see it: the value that identifies it and the
/// hash it reports, if it can be hashed at all.
///
/// Two objects are equal when both fields are, so equal objects always report
/// equal hashes; unequal objects may still report the same hash.
#[derive(Clone, Copy, Debug, PartialEq, Eq, Hash, Structural)]
pub struct Object {
    pub value: i64,
    pub hash: Option<i64>,
}

/// The decimal digit `d`.
pub open spec fn digit(d: nat) -> char {
    seq!['0', '1', '2', '3', '4', '5', '6', '7', '8', '9'][d as int]
}

/// The decimal numeral of `n`, without leading zeros.
pub open spec fn decimal(n: nat) -> Seq<char>
    decreases n,
{
    if n < 10 {
        seq![digit(n)]
    } else {
        decimal(n / 10).push(digit(n % 10))
    }
}

/// The decimal numeral of `v`, with a minus sign when it is negative.
pub open spec fn signed_decimal(v: int) -> Seq<char> {
    if v < 0 {
        seq!['-'] + decimal((-v) as nat)
    } else {
        decimal(v as nat)
    }
}

/// How an object is written out: its value in decimal.
pub open spec fn object_repr(o: Object) -> Seq<char> {
    signed_decimal(o.value as int)
}

/// The one-character string of the decimal digit `d`.
fn digit_str(d: u64) -> (r: &'static str)
    requires
        d < 10,
    ensures
        r@ == seq![digit(d as nat)],
{
    if d == 0 {
        proof { reveal_strlit("0"); }
        "0"
    } else if d == 1 {
        proof { reveal_strlit("1"); }
        "1"
    } else if d == 2 {
        proof { reveal_strlit("2"); }
        "2"
    } else if d == 3 {
        proof { reveal_strlit("3"); }
        "3"
    } else if d == 4 {
        proof { reveal_strlit("4"); }
        "4"
    } else if d == 5 {
        proof { reveal_strlit("5"); }
        "5"
    } else if d == 6 {
        proof { reveal_strlit("6"); }
        "6"
    } else if d == 7 {
        proof { reveal_strlit("7"); }
        "7"
    } else if d == 8 {
        proof { reveal_strlit("8"); }
        "8"
    } else {
        proof { reveal_strlit("9"); }
        "9"
    }
}

/// Appends the decimal numeral of `n` to `out`.
fn push_decimal(out: &mut String, n: u64)
    ensures
        final(out)@ == old(out)@ + decimal(n as nat),
    decreases n,
{
    if n >= 10 {
        push_decimal(out, n / 10);
    }
    out.append(digit_str(n % 10));
    assert(final(out)@ =~= old(out)@ + decimal(n as nat));
}

impl Object {
    pub fn new(value: i64, hash: Option<i64>) -> (r: Object)
        ensures
            r.value == value,
            r.hash == hash,
    {
        Object { value, hash }
    }

    /// Appends the written-out form of the object to `out`.
    pub fn write_to(&self, out: &mut String)
        ensures
            final(out)@ == old(out)@ + object_repr(*self),
    {
        if self.value < 0 {
            proof { reveal_strlit("-"); }
            out.append("-");
            let magnitude = (-(self.value as i128)) as u64;
            push_decimal(out, magnitude);
            assert(final(out)@ =~= old(out)@ + object_repr(*self));
        } else {
            push_decimal(out, self.value as u64);
        }
    }

    /// The written-out form of the object: its value in decimal.
    pub fn to_string(&self) -> (r: String)
        ensures
            r@ == object_repr(*self),
    {
        let mut out = String::new();
        self.write_to(&mut out);
        assert(out@ =~= object_repr(*self));
        out
    }
}

/// The element's hash capability: its hash, or a failure when it refuses to be hashed.
pub open spec fn object_hash(o: Object) -> Result<i64, CollectionError> {
    match o.hash {
        Some(h) => Ok(h),
        None => Err(CollectionError::CapabilityFailure),
    }
}

/// Asks an element for its hash; a refusal is reported, never replaced by a default.
pub fn hash_py_object(element: &Object) -> (r: Result<i64, CollectionError>)
    ensures
        r == object_hash(*element),
{
    match element.hash {
        Some(h) => Ok(h),
        None => Err(CollectionError::CapabilityFailure),
    }
}

/// Hands out the element that a lookup found, or reports that the collection was empty.
pub fn extract_py_object(object: Option<&Object>) -> (r: Result<Object, CollectionError>)
    ensures
        object matches Some(o) ==> r == Ok::<Object, CollectionError>(*o),
        object is None ==> r == Err::<Object, CollectionError>(CollectionError::EmptyCollection),
{
    match object {
        Some(o) => Ok(*o),
        None => Err(CollectionError::EmptyCollection),
    }
}

/// Whether every element of `s` can be hashed.
pub open spec fn all_hashable(s: Seq<Object>) -> bool {
    forall|i: int| 0 <= i < s.len() ==> (#[trigger] s[i]).hash is Some
}

/// The byte writes that hash a sequence: its length, then each element's hash, in order.
pub open spec fn ordered_writes(s: Seq<Object>) -> Seq<Seq<u8>> {
    seq![spec_u64_to_le_bytes(s.len() as u64)] + s.map_values(
        |o: Object| spec_u64_to_le_bytes(word(o.hash->0)),
    )
}

/// The hash of a sequence of elements, order included; a failure if one element
/// refuses to be hashed.
pub open spec fn ordered_hash(s: Seq<Object>) -> Result<u64, CollectionError> {
    if all_hashable(s) {
        Ok(DefaultHasher::spec_finish(ordered_writes(s)))
    } else {
        Err(CollectionError::CapabilityFailure)
    }
}

/// Hashes `items` with the length first, so that two sequences one after the
/// other never hash as a single sequence holding the same elements.
pub fn hash_ordered(items: &Vec<Object>) -> (r: Result<u64, CollectionError>)
    ensures
        r == ordered_hash(items@),
{
    let mut state = DefaultHasher::new();
    let len_bytes = u64_to_le_bytes(items.len() as u64);
    state.write(len_bytes.as_slice());
    let mut i: usize = 0;
    while i < items.len()
        invariant
            0 <= i <= items.len(),
            all_hashable(items@.subrange(0, i as int)),
            state@ == ordered_writes(items@).subrange(0, i + 1),
        decreases items.len() - i,
    {
        match hash_py_object(&items[i]) {
            Ok(h) => {
                let bytes = u64_to_le_bytes(to_word(h));
                state.write(bytes.as_slice());
            },
            Err(e) => {
                assert(!all_hashable(items@)) by {
                    assert(items@[i as int].hash is None);
                }
                return Err(e);
            },
        }
        i = i + 1;
        assert(items@.subrange(0, i as int) =~= items@.subrange(0, i - 1).push(items@[i - 1]));
        assert(ordered_writes(items@).subrange(0, i + 1) =~= ordered_writes(items@).subrange(0, i as int).push(ordered_writes(items@)[i as int]));
    }
    assert(items@.subrange(0, i as int) =~= items@);
    assert(ordered_writes(items@).subrange(0, i + 1) =~= ordered_writes(items@));
    Ok(state.finish())
}

/// The written-out forms of `s`, separated by a comma and a space.
pub open spec fn joined_reprs(s: Seq<Object>) -> Seq<char>
    decreases s.len(),
{
    if s.len() == 0 {
        Seq::empty()
    } else if s.len() == 1 {
        object_repr(s[0])
    } else {
        joined_reprs(s.drop_last()) + ", "@ + object_repr(s.last())
    }
}

/// How an entry is written out: its key, a colon and a space, its value.
pub open spec fn pair_repr(p: (Object, Object)) -> Seq<char> {
    object_repr(p.0) + ": "@ + object_repr(p.1)
}

/// The written-out entries of `s`, separated by a comma and a space.
pub open spec fn joined_pairs(s: Seq<(Object, Object)>) -> Seq<char>
    decreases s.len(),
{
    if s.len() == 0 {
        Seq::empty()
    } else if s.len() == 1 {
        pair_repr(s[0])
    } else {
        joined_pairs(s.drop_last()) + ", "@ + pair_repr(s.last())
    }
}

/// Appends the written-out forms of `items` to `out`, separated by a comma and a space.
pub fn write_joined(out: &mut String, items: &Vec<Object>)
    ensures
        final(out)@ == old(out)@ + joined_reprs(items@),
{
    let ghost start = out@;
    let mut i: usize = 0;
    while i < items.len()
        invariant
            0 <= i <= items.len(),
            out@ == start + joined_reprs(items@.subrange(0, i as int)),
        decreases items.len() - i,
    {
        if i > 0 {
            out.append(", ");
        }
        items[i].write_to(out);
        assert(items@.subrange(0, i + 1).drop_last() =~= items@.subrange(0, i as int));
        assert(out@ =~= start + joined_reprs(items@.subrange(0, i + 1)));
        i = i + 1;
    }
    assert(items@.subrange(0, i as int) =~= items@);
}

/// Appends the written-out entries of `pairs` to `out`, separated by a comma and a space.
pub fn write_joined_pairs(out: &mut String, pairs: &Vec<(Object, Object)>)
    ensures
        final(out)@ == old(out)@ + joined_pairs(pairs@),
{
    let ghost start = out@;
    let mut i: usize = 0;
    while i < pairs.len()
        invariant
            0 <= i <= pairs.len(),
            out@ == start + joined_pairs(pairs@.subrange(0, i as int)),
        decreases pairs.len() - i,
    {
        if i > 0 {
            out.append(", ");
        }
        pairs[i].0.write_to(out);
        out.append(": ");
        pairs[i].1.write_to(out);
        assert(pairs@.subrange(0, i + 1).drop_last() =~= pairs@.subrange(0, i as int));
        assert(out@ =~= start + joined_pairs(pairs@.subrange(0, i + 1)));
        i = i + 1;
    }
    assert(pairs@.subrange(0, i as int) =~= pairs@);
}

} // verus!
