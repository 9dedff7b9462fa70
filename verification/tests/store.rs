use cutergames::store::Store;

#[test]
fn store_success() {
    let mut store = Store::<i32, String>::with_capacity(4);

    assert_eq!(store.len(), 0);
    assert_eq!(store.capacity(), 4);
    assert!(store.is_empty());
    assert!(!store.contains_key(0));
    assert!(!store.contains_key(1));
    assert_eq!(store.get(0), None);
    assert_eq!(store.get(1), None);

    store.insert(0, "Test String".to_string());

    assert_eq!(store.len(), 1);
    assert_eq!(store.capacity(), 4);
    assert!(!store.is_empty());
    assert!(store.contains_key(0));
    assert!(!store.contains_key(1));
    assert_eq!(store.get(0), Some("Test String".to_string()));
    assert_eq!(store.get(1), None);
}

#[test]
fn store_replace_and_remove() {
    let mut store = Store::<usize, u64>::with_capacity(2);
    store.insert(7, 1);
    store.insert(7, 2);
    assert_eq!(store.len(), 1);
    assert_eq!(store.get(7), Some(2));

    store.insert(8, 3);
    assert!(store.is_full());
    // A new key does not fit into a full store.
    store.insert(9, 4);
    assert_eq!(store.len(), 2);
    assert!(!store.contains_key(9));

    assert_eq!(store.remove(7), Some(2));
    assert_eq!(store.len(), 1);
    assert!(!store.contains_key(7));
    assert_eq!(store.remove(7), None);
}

#[test]
fn store_get_or_insert_with() {
    let mut store = Store::<i32, String>::with_capacity(1);
    assert_eq!(
        store.get_or_insert_with(1, || "one".to_string()),
        Some("one".to_string())
    );
    assert_eq!(
        store.get_or_insert_with(1, || "other".to_string()),
        Some("one".to_string())
    );
    assert_eq!(store.get_or_insert_with(2, || "two".to_string()), None);
}
