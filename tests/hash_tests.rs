use pyrpds::map::pmap;
use pyrpds::set::pset;
use pyrpds::vector::pvector;
use pyrpds::{List, Object};
use std::collections::hash_map::DefaultHasher;
use std::hash::Hasher;

fn obj(n: i64) -> Object {
    Object::new(n, Some(n))
}

fn finish(words: &[u64]) -> u64 {
    let mut state = DefaultHasher::new();
    for w in words {
        state.write(&w.to_le_bytes());
    }
    state.finish()
}

#[test]
fn sequence_hash_is_length_then_elements() {
    let expected = finish(&[2, 1, (-2i64) as u64]);
    assert_eq!(pvector(&vec![obj(1), obj(-2)]).hash(), Ok(expected));
    let list = List::new().push_front(obj(-2)).push_front(obj(1));
    assert_eq!(list.hash(), Ok(expected));
    assert_eq!(pvector(&vec![]).hash(), Ok(finish(&[0])));
}

#[test]
fn set_hash_is_size_then_wrapped_sum_of_codes() {
    let a = finish(&[5]);
    let b = finish(&[(-9i64) as u64]);
    let expected = finish(&[2, a.wrapping_add(b)]);
    assert_eq!(pset(&vec![obj(5), obj(-9)]).unwrap().hash(), expected);
    assert_eq!(pset(&vec![]).unwrap().hash(), finish(&[0, 0]));
}

#[test]
fn map_hash_is_size_then_wrapped_sum_of_entry_codes() {
    let a = finish(&[1, 10]);
    let b = finish(&[2, 20]);
    let expected = finish(&[2, a.wrapping_add(b)]);
    let map = pmap(&vec![(obj(1), obj(10)), (obj(2), obj(20))]).unwrap();
    assert_eq!(map.hash(), Ok(expected));
}
