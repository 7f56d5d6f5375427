use pyrpds::map::{m, pmap};
use pyrpds::{CollectionError, Object, PMap};

fn obj(n: i64) -> Object {
    Object::new(n, Some(n))
}

fn sorted(mut v: Vec<Object>) -> Vec<Object> {
    v.sort_by_key(|o| o.value);
    v
}

#[test]
fn inserting_an_existing_key_replaces_its_value() {
    let map = PMap::new().set(obj(97), obj(1)).unwrap().set(obj(97), obj(2)).unwrap();
    assert_eq!(map.len(), 1);
    assert_eq!(map.get(obj(97)), Ok(obj(2)));
}

#[test]
fn set_leaves_the_old_version_alone() {
    let one = PMap::new().set(obj(1), obj(10)).unwrap();
    let two = one.set(obj(2), obj(20)).unwrap();
    assert_eq!(one.len(), 1);
    assert_eq!(one.contains_key(obj(2)), Ok(false));
    assert_eq!(two.contains_key(obj(2)), Ok(true));
}

#[test]
fn map_remove_is_strict_and_discard_is_not() {
    let map = pmap(&vec![(obj(1), obj(10)), (obj(2), obj(20))]).unwrap();
    let smaller = map.remove(obj(1)).unwrap();
    assert_eq!(smaller.len(), 1);
    assert_eq!(smaller.get(obj(1)), Err(CollectionError::KeyNotFound));
    assert!(matches!(map.remove(obj(3)), Err(CollectionError::KeyNotFound)));
    let same = map.discard(obj(3)).unwrap();
    assert!(same.equals(&map));
    assert_eq!(map.discard(obj(2)).unwrap().len(), 1);
}

#[test]
fn unhashable_keys_are_refused() {
    let key = Object::new(1, None);
    let map = PMap::new();
    assert!(matches!(map.set(key, obj(1)), Err(CollectionError::CapabilityFailure)));
    assert!(matches!(map.remove(key), Err(CollectionError::CapabilityFailure)));
    assert!(matches!(map.discard(key), Err(CollectionError::CapabilityFailure)));
    assert_eq!(map.get(key), Err(CollectionError::CapabilityFailure));
    assert_eq!(map.contains_key(key), Err(CollectionError::CapabilityFailure));
}

#[test]
fn colliding_keys_stay_apart() {
    let x = Object::new(1, Some(7));
    let y = Object::new(2, Some(7));
    let map = PMap::new().set(x, obj(10)).unwrap().set(y, obj(20)).unwrap();
    assert_eq!(map.len(), 2);
    assert_eq!(map.get(x), Ok(obj(10)));
    assert_eq!(map.get(y), Ok(obj(20)));
    assert_eq!(map.remove(x).unwrap().get(y), Ok(obj(20)));
}

#[test]
fn keys_values_and_items_list_every_entry_once() {
    let map = pmap(&vec![(obj(1), obj(10)), (obj(2), obj(20)), (obj(3), obj(30))]).unwrap();
    assert_eq!(sorted(map.keys().to_vec()), vec![obj(1), obj(2), obj(3)]);
    assert_eq!(sorted(map.values().to_vec()), vec![obj(10), obj(20), obj(30)]);
    assert_eq!(sorted(map.itervalues().to_vec()), vec![obj(10), obj(20), obj(30)]);
    let mut items = map.items();
    items.sort_by_key(|p| p.0.value);
    assert_eq!(items, vec![(obj(1), obj(10)), (obj(2), obj(20)), (obj(3), obj(30))]);
    assert_eq!(map.iteritems().len(), 3);
}

#[test]
fn update_inserts_in_order() {
    let map = PMap::new().set(obj(1), obj(10)).unwrap();
    let updated = map.update(&vec![(obj(2), obj(20)), (obj(1), obj(11)), (obj(2), obj(22))]).unwrap();
    assert_eq!(updated.len(), 2);
    assert_eq!(updated.get(obj(1)), Ok(obj(11)));
    assert_eq!(updated.get(obj(2)), Ok(obj(22)));
    assert!(matches!(map.update(&vec![(Object::new(4, None), obj(1))]), Err(CollectionError::CapabilityFailure)));
    assert_eq!(map.len(), 1);
}

#[test]
fn pmap_and_m_build_the_same_map() {
    let pairs = vec![(obj(5), obj(50)), (obj(6), obj(60))];
    assert!(pmap(&pairs).unwrap().equals(&m(&pairs).unwrap()));
    assert_eq!(pmap(&vec![]).unwrap().len(), 0);
}

#[test]
fn size_counts_the_keys_a_lookup_finds() {
    let mut map = PMap::new();
    for i in 0..200 {
        map = map.set(obj(i % 70), obj(i)).unwrap();
        if i % 3 == 0 {
            map = map.discard(obj(i % 50)).unwrap();
        }
    }
    let found = (0..70).filter(|k| map.get(obj(*k)).is_ok()).count();
    assert_eq!(map.len(), found);
    assert_eq!(map.keys().len(), found);
}

#[test]
fn map_hash_ignores_insertion_order() {
    let a = pmap(&vec![(obj(1), obj(10)), (obj(2), obj(20)), (obj(3), obj(30))]).unwrap();
    let b = pmap(&vec![(obj(3), obj(30)), (obj(1), obj(10)), (obj(2), obj(20))]).unwrap();
    assert!(a.equals(&b));
    assert_eq!(a.hash(), b.hash());
    let c = pmap(&vec![(obj(1), obj(10)), (obj(2), obj(21)), (obj(3), obj(30))]).unwrap();
    assert_ne!(a.hash(), c.hash());
    let bad = PMap::new().set(obj(1), Object::new(1, None)).unwrap();
    assert_eq!(bad.hash(), Err(CollectionError::CapabilityFailure));
}

#[test]
fn map_is_written_out() {
    let map = pmap(&vec![(obj(1), obj(-2))]).unwrap();
    assert_eq!(map.to_string(), "pmap({1: -2})");
    assert_eq!(PMap::new().to_string(), "pmap({})");
    let two = pmap(&vec![(obj(1), obj(2)), (obj(3), obj(4))]).unwrap().to_string();
    assert!(two == "pmap({1: 2, 3: 4})" || two == "pmap({3: 4, 1: 2})");
}
