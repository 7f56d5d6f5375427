use pyrpds::list::{l, plist};
use pyrpds::{CollectionError, List, Object};

fn obj(n: i64) -> Object {
    Object::new(n, Some(n))
}

#[test]
fn push_front_twice_gives_first_and_last() {
    let list = List::new().push_front(obj(1)).push_front(obj(2));
    assert_eq!(list.len(), 2);
    assert_eq!(list.first(), Ok(obj(2)));
    assert_eq!(list.last(), Ok(obj(1)));
}

#[test]
fn plist_pushes_each_to_the_front() {
    let list = plist(&vec![obj(1), obj(2), obj(3)]);
    assert_eq!(list.to_vec(), vec![obj(3), obj(2), obj(1)]);
    assert_eq!(l(&vec![obj(1), obj(2), obj(3)]).to_vec(), vec![obj(3), obj(2), obj(1)]);
}

#[test]
fn empty_list_has_no_first_last_or_tail() {
    let list = List::new();
    assert_eq!(list.len(), 0);
    assert_eq!(list.first(), Err(CollectionError::EmptyCollection));
    assert_eq!(list.last(), Err(CollectionError::EmptyCollection));
    assert!(matches!(list.drop_first(), Err(CollectionError::EmptyCollection)));
}

#[test]
fn drop_first_removes_the_front_only() {
    let list = List::new().push_front(obj(1)).push_front(obj(2)).push_front(obj(3));
    let rest = list.drop_first().unwrap();
    assert_eq!(rest.to_vec(), vec![obj(2), obj(1)]);
    assert_eq!(list.to_vec(), vec![obj(3), obj(2), obj(1)]);
}

#[test]
fn reverse_flips_order_and_twice_restores_it() {
    let list = List::new().push_front(obj(1)).push_front(obj(2)).push_front(obj(3));
    let reversed = list.reverse();
    assert_eq!(reversed.to_vec(), vec![obj(1), obj(2), obj(3)]);
    assert!(reversed.reverse().equals(&list));
    assert_eq!(list.to_vec(), vec![obj(3), obj(2), obj(1)]);
}

#[test]
fn lists_with_swapped_elements_differ() {
    let ab = List::new().push_front(obj(2)).push_front(obj(1));
    let ba = List::new().push_front(obj(1)).push_front(obj(2));
    assert!(!ab.equals(&ba));
    assert!(ab.equals(&List::new().push_front(obj(2)).push_front(obj(1))));
}

#[test]
fn push_front_leaves_the_old_version_alone() {
    let one = List::new().push_front(obj(1));
    let two = one.push_front(obj(2));
    assert_eq!(one.len(), 1);
    assert_eq!(one.to_vec(), vec![obj(1)]);
    assert_eq!(two.len(), 2);
}

#[test]
fn list_hash_depends_on_order_and_content() {
    let ab = List::new().push_front(obj(2)).push_front(obj(1));
    let ab2 = List::new().push_front(obj(2)).push_front(obj(1));
    let ba = List::new().push_front(obj(1)).push_front(obj(2));
    assert_eq!(ab.hash(), ab2.hash());
    assert_ne!(ab.hash(), ba.hash());
}

#[test]
fn list_hash_fails_on_an_unhashable_element() {
    let list = List::new().push_front(Object::new(5, None)).push_front(obj(1));
    assert_eq!(list.hash(), Err(CollectionError::CapabilityFailure));
}
