//! Tests of the string-keyed map.

use fractal::strmap::StringMap;

#[test]
fn empty_map() {
    let m: StringMap<i64> = StringMap::new();
    assert_eq!(m.len(), 0);
    assert!(m.is_empty());
    assert!(!m.contains_key("a"));
    assert!(m.get("a").is_none());
    assert!(m.keys().is_empty());
}

#[test]
fn insert_get_and_replace() {
    let mut m: StringMap<i64> = StringMap::new();
    m.insert("alpha".to_string(), 1);
    m.insert("beta".to_string(), 2);
    assert_eq!(m.len(), 2);
    assert!(!m.is_empty());
    assert_eq!(m.get("alpha"), Some(&1));
    assert_eq!(m.get("beta"), Some(&2));
    assert!(m.get("gamma").is_none());

    // replacing keeps the number of entries
    m.insert("alpha".to_string(), 10);
    assert_eq!(m.len(), 2);
    assert_eq!(m.get("alpha"), Some(&10));
}

#[test]
fn remove_entries() {
    let mut m: StringMap<i64> = StringMap::new();
    m.insert("alpha".to_string(), 1);
    m.insert("beta".to_string(), 2);
    assert_eq!(m.remove("alpha"), Some(1));
    assert_eq!(m.remove("alpha"), None);
    assert_eq!(m.len(), 1);
    assert!(!m.contains_key("alpha"));
    assert!(m.contains_key("beta"));
    assert_eq!(m.remove("beta"), Some(2));
    assert!(m.is_empty());
}

#[test]
fn keys_in_insertion_order() {
    let mut m: StringMap<i64> = StringMap::new();
    m.insert("one".to_string(), 1);
    m.insert("two".to_string(), 2);
    m.insert("three".to_string(), 3);
    m.insert("two".to_string(), 22);
    assert_eq!(m.keys(), vec!["one".to_string(), "two".to_string(), "three".to_string()]);
}

#[test]
fn clone_keeps_entries() {
    let mut m: StringMap<i64> = StringMap::new();
    m.insert("a".to_string(), 5);
    m.insert("b".to_string(), 6);
    let c = m.clone();
    assert_eq!(c.len(), 2);
    assert_eq!(c.get("a"), Some(&5));
    assert_eq!(c.get("b"), Some(&6));
}
