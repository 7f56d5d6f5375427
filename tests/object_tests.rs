use pyrpds::object::{extract_py_object, hash_py_object};
use pyrpds::{CollectionError, Object};

#[test]
fn hash_is_reported_or_refused() {
    assert_eq!(hash_py_object(&Object::new(3, Some(17))), Ok(17));
    assert_eq!(hash_py_object(&Object::new(3, None)), Err(CollectionError::CapabilityFailure));
}

#[test]
fn extract_hands_out_or_reports_empty() {
    let o = Object::new(4, Some(4));
    assert_eq!(extract_py_object(Some(&o)), Ok(o));
    assert_eq!(extract_py_object(None), Err(CollectionError::EmptyCollection));
}

#[test]
fn objects_are_written_in_decimal() {
    assert_eq!(Object::new(0, Some(0)).to_string(), "0");
    assert_eq!(Object::new(42, Some(42)).to_string(), "42");
    assert_eq!(Object::new(-1207, None).to_string(), "-1207");
    assert_eq!(Object::new(i64::MIN, None).to_string(), "-9223372036854775808");
    assert_eq!(Object::new(i64::MAX, None).to_string(), "9223372036854775807");
}

#[test]
fn equal_hash_does_not_make_objects_equal() {
    let x = Object::new(1, Some(7));
    let y = Object::new(2, Some(7));
    assert_ne!(x, y);
    assert_eq!(hash_py_object(&x), hash_py_object(&y));
}
