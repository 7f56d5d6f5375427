use pyrpds::set::{pset, s};
use pyrpds::{CollectionError, Object, PSet};

fn obj(n: i64) -> Object {
    Object::new(n, Some(n))
}

fn objs(ns: &[i64]) -> Vec<Object> {
    ns.iter().map(|n| obj(*n)).collect()
}

#[test]
fn disjointness() {
    let a = pset(&objs(&[1, 2])).unwrap();
    assert!(a.isdisjoint(&pset(&objs(&[3, 4])).unwrap()));
    assert!(!a.isdisjoint(&pset(&objs(&[2, 3])).unwrap()));
    assert!(a.isdisjoint(&PSet::new()));
}

#[test]
fn colliding_elements_are_both_kept_and_removable() {
    let x = Object::new(1, Some(7));
    let y = Object::new(2, Some(7));
    let set = PSet::new().add(x).unwrap().add(y).unwrap();
    assert_eq!(set.len(), 2);
    let without_x = set.remove(x).unwrap();
    assert_eq!(without_x.len(), 1);
    assert_eq!(without_x.contains(y), Ok(true));
    assert_eq!(without_x.contains(x), Ok(false));
    let without_y = set.remove(y).unwrap();
    assert_eq!(without_y.contains(x), Ok(true));
    assert_eq!(without_y.remove(x).unwrap().len(), 0);
}

#[test]
fn add_is_idempotent_and_persistent() {
    let one = PSet::new().add(obj(1)).unwrap();
    let again = one.add(obj(1)).unwrap();
    assert_eq!(again.len(), 1);
    let two = one.add(obj(2)).unwrap();
    assert_eq!(one.len(), 1);
    assert_eq!(two.len(), 2);
}

#[test]
fn set_remove_is_strict_and_discard_is_not() {
    let set = pset(&objs(&[1, 2])).unwrap();
    assert!(matches!(set.remove(obj(3)), Err(CollectionError::KeyNotFound)));
    assert!(set.discard(obj(3)).unwrap().equals(&set));
    assert_eq!(set.discard(obj(1)).unwrap().len(), 1);
}

#[test]
fn unhashable_elements_are_refused() {
    let bad = Object::new(3, None);
    let set = PSet::new();
    assert!(matches!(set.add(bad), Err(CollectionError::CapabilityFailure)));
    assert!(matches!(set.remove(bad), Err(CollectionError::CapabilityFailure)));
    assert!(matches!(set.discard(bad), Err(CollectionError::CapabilityFailure)));
    assert_eq!(set.contains(bad), Err(CollectionError::CapabilityFailure));
    assert!(matches!(pset(&vec![obj(1), bad]), Err(CollectionError::CapabilityFailure)));
}

#[test]
fn update_adds_every_element() {
    let set = pset(&objs(&[1])).unwrap().update(&objs(&[2, 3, 2])).unwrap();
    assert_eq!(set.len(), 3);
    let mut members = set.to_vec();
    members.sort_by_key(|o| o.value);
    assert_eq!(members, objs(&[1, 2, 3]));
    assert!(s(&objs(&[3, 2, 1])).unwrap().equals(&set));
}

#[test]
fn set_hash_ignores_insertion_order() {
    let a = pset(&objs(&[1, 2, 3])).unwrap();
    let b = pset(&objs(&[3, 1, 2])).unwrap();
    assert_eq!(a.hash(), b.hash());
    assert_ne!(a.hash(), pset(&objs(&[1, 2])).unwrap().hash());
}

#[test]
fn set_is_written_out() {
    assert_eq!(pset(&objs(&[8])).unwrap().to_string(), "pset([8])");
    assert_eq!(PSet::new().to_string(), "pset([])");
}
