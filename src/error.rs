use vstd::prelude::*;

verus! {

/// Why an operation on a collection could not produce a new version.
#[derive(Clone, Copy, Debug, PartialEq, Eq, Structural)]
pub enum CollectionError {
    /// A position lies outside the collection.
    IndexOutOfBounds,
    /// A map or set lookup, or a strict removal, named a key that is absent.
    KeyNotFound,
    /// A sequence search named an element that the sequence does not hold.
    ElementNotFound,
    /// The collection holds nothing to return.
    EmptyCollection,
    /// An element refused to be hashed.
    CapabilityFailure,
}

} // verus!
