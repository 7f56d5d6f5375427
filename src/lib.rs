//! Persistent collections over opaque elements: a linked list, a trie vector,
//! and a hash-trie map and set. Every operation leaves its receiver untouched
//! and returns a new version that shares structure with the old one.
pub mod error;
pub mod object;
pub mod hashing;
pub mod backing;
pub mod list;
pub mod vector;
pub mod map;
pub mod set;

pub use crate::error::CollectionError;
pub use crate::list::List;
pub use crate::map::PMap;
pub use crate::object::Object;
pub use crate::set::PSet;
pub use crate::vector::Vector;
