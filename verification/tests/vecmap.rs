use cutoff_common::collections::vecmap::VecMap;

#[test]
fn test_vecmap_insert_and_get() {
    let mut m: VecMap<&str, i32> = VecMap::new();
    m.insert("one", 1);
    m.insert("two", 2);
    assert_eq!(m.get(&"one"), Some(&1));
    assert_eq!(m.get(&"two"), Some(&2));
    assert_eq!(m.get(&"three"), None);
}

#[test]
fn test_vecmap_insert_replaces() {
    let mut m: VecMap<i32, i32> = VecMap::new();
    m.insert(1, 10);
    m.insert(1, 20);
    assert_eq!(m.get(&1), Some(&20));
    let mut it = m.iter();
    assert_eq!(it.next(), Some(&(1, 20)));
    assert_eq!(it.next(), None);
}

#[test]
fn test_vecmap_remove() {
    let mut m: VecMap<i32, &str> = VecMap::new();
    m.insert(1, "a");
    m.insert(2, "b");
    assert_eq!(m.remove(&1), Some("a"));
    assert_eq!(m.remove(&1), None);
    assert!(!m.contains_key(&1));
    assert!(m.contains_key(&2));
}

#[test]
fn test_vecmap_iter_order() {
    let mut m: VecMap<i32, i32> = VecMap::new();
    m.insert(3, 30);
    m.insert(1, 10);
    m.insert(2, 20);
    let mut it = m.iter();
    assert_eq!(it.next(), Some(&(3, 30)));
    assert_eq!(it.next(), Some(&(1, 10)));
    assert_eq!(it.next(), Some(&(2, 20)));
    assert_eq!(it.next(), None);
}
