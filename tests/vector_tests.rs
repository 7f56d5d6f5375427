use pyrpds::vector::{pvector, v};
use pyrpds::{CollectionError, Object, Vector};

fn obj(n: i64) -> Object {
    Object::new(n, Some(n))
}

fn objs(ns: &[i64]) -> Vec<Object> {
    ns.iter().map(|n| obj(*n)).collect()
}

fn counting(n: i64) -> Vector {
    let mut vector = Vector::new();
    for i in 0..n {
        vector = vector.append(obj(i));
    }
    vector
}

#[test]
fn push_back_past_the_tail_buffer() {
    let vector = counting(40);
    assert_eq!(vector.len(), 40);
    assert_eq!(vector.get(35), Ok(obj(35)));
    assert_eq!(vector.get(31), Ok(obj(31)));
    assert_eq!(vector.get(32), Ok(obj(32)));
    assert_eq!(vector.get(0), Ok(obj(0)));
    assert_eq!(vector.get(39), Ok(obj(39)));
}

#[test]
fn negative_index_counts_from_the_end() {
    let vector = counting(5);
    assert_eq!(vector.get(-1), Ok(obj(4)));
    assert_eq!(vector.get(-5), Ok(obj(0)));
    assert_eq!(vector.get(-6), Err(CollectionError::IndexOutOfBounds));
    assert_eq!(vector.get(5), Err(CollectionError::IndexOutOfBounds));
}

#[test]
fn set_minus_one_equals_set_last() {
    let vector = counting(5);
    let a = vector.set(-1, obj(99)).unwrap();
    let b = vector.set(4, obj(99)).unwrap();
    assert!(a.equals(&b));
    assert_eq!(a.to_vec(), objs(&[0, 1, 2, 3, 99]));
}

#[test]
fn set_out_of_bounds_fails() {
    let vector = counting(5);
    assert!(matches!(vector.set(5, obj(1)), Err(CollectionError::IndexOutOfBounds)));
    assert!(matches!(vector.set(-6, obj(1)), Err(CollectionError::IndexOutOfBounds)));
    assert!(matches!(Vector::new().set(0, obj(1)), Err(CollectionError::IndexOutOfBounds)));
}

#[test]
fn set_then_get_round_trips_and_keeps_the_old_version() {
    let vector = counting(70);
    for i in [0isize, 31, 32, 33, 64, 69, -1, -40] {
        let changed = vector.set(i, obj(1000)).unwrap();
        assert_eq!(changed.get(i), Ok(obj(1000)));
        assert_eq!(changed.len(), 70);
    }
    assert_eq!(vector.to_vec(), counting(70).to_vec());
}

#[test]
fn append_then_drop_last_round_trips() {
    for n in [0i64, 1, 31, 32, 33, 1056, 1057] {
        let vector = counting(n);
        let back = vector.append(obj(-3)).drop_last().unwrap();
        assert!(back.equals(&vector));
        assert_eq!(back.len(), vector.len());
    }
}

#[test]
fn drop_last_on_empty_fails() {
    assert!(matches!(Vector::new().drop_last(), Err(CollectionError::EmptyCollection)));
}

#[test]
fn first_and_last() {
    let vector = counting(3);
    assert_eq!(vector.first(), Ok(obj(0)));
    assert_eq!(vector.last(), Ok(obj(2)));
    assert_eq!(Vector::new().first(), Err(CollectionError::EmptyCollection));
    assert_eq!(Vector::new().last(), Err(CollectionError::EmptyCollection));
}

#[test]
fn extend_appends_in_order() {
    let vector = counting(2).extend(&objs(&[7, 8, 9]));
    assert_eq!(vector.to_vec(), objs(&[0, 1, 7, 8, 9]));
    assert_eq!(pvector(&objs(&[4, 5])).to_vec(), objs(&[4, 5]));
    assert_eq!(v(&objs(&[])).len(), 0);
}

#[test]
fn index_count_and_remove_by_equality() {
    let vector = pvector(&objs(&[3, 1, 3, 2, 3]));
    assert_eq!(vector.index(obj(3)), Ok(0));
    assert_eq!(vector.index(obj(2)), Ok(3));
    assert_eq!(vector.index(obj(9)), Err(CollectionError::ElementNotFound));
    assert_eq!(vector.count(obj(3)), 3);
    assert_eq!(vector.count(obj(9)), 0);
    let removed = vector.remove(obj(3)).unwrap();
    assert_eq!(removed.to_vec(), objs(&[1, 3, 2, 3]));
    let removed = vector.remove(obj(2)).unwrap();
    assert_eq!(removed.to_vec(), objs(&[3, 1, 3, 3]));
    assert!(matches!(vector.remove(obj(9)), Err(CollectionError::ElementNotFound)));
    assert_eq!(vector.to_vec(), objs(&[3, 1, 3, 2, 3]));
}

#[test]
fn equality_uses_the_whole_object() {
    let vector = pvector(&vec![Object::new(1, Some(5))]);
    assert_eq!(vector.index(Object::new(1, Some(6))), Err(CollectionError::ElementNotFound));
}

#[test]
fn mset_sets_each_pair_in_turn() {
    let vector = counting(4);
    let changed = vector.mset(&vec![(0, obj(10)), (-1, obj(13)), (0, obj(20))]).unwrap();
    assert_eq!(changed.to_vec(), objs(&[20, 1, 2, 13]));
    assert!(matches!(vector.mset(&vec![(1, obj(5)), (4, obj(6))]), Err(CollectionError::IndexOutOfBounds)));
    assert!(vector.mset(&vec![]).unwrap().equals(&vector));
}

#[test]
fn vector_hash_is_order_sensitive() {
    let a = pvector(&objs(&[1, 2]));
    let b = pvector(&objs(&[2, 1]));
    assert_eq!(a.hash(), pvector(&objs(&[1, 2])).hash());
    assert_ne!(a.hash(), b.hash());
    assert_ne!(pvector(&objs(&[])).hash(), pvector(&objs(&[0])).hash());
    let bad = pvector(&vec![Object::new(1, None)]);
    assert_eq!(bad.hash(), Err(CollectionError::CapabilityFailure));
}

#[test]
fn vector_is_written_out() {
    assert_eq!(pvector(&objs(&[1, -2, 30])).to_string(), "pvector([1, -2, 30])");
    assert_eq!(Vector::new().to_string(), "pvector([])");
    assert_eq!(pvector(&objs(&[5])).to_string(), "pvector([5])");
}

#[test]
fn get_item_refuses_negative_positions() {
    let vector = counting(3);
    assert_eq!(vector.get_item(2), Ok(obj(2)));
    assert_eq!(vector.get_item(-1), Err(CollectionError::IndexOutOfBounds));
    assert_eq!(vector.get_item(3), Err(CollectionError::IndexOutOfBounds));
}
