use unibundle::store::{to_hash_path, MemModuleStore, ModuleStore, StoreError};

#[test]
fn module_store_should_work() {
    let mut store = MemModuleStore::new();
    store.put("foo".to_string(), b"bar").unwrap();
    let contents = store.get("foo").unwrap();
    assert_eq!(&contents[..], b"bar");
}

#[test]
fn get_on_never_put_identifier_is_not_found() {
    let store = MemModuleStore::new();
    assert_eq!(store.get("https://example.com/a.js"), Err(StoreError::NotFound));
}

#[test]
fn put_overwrites_unconditionally() {
    let mut store = MemModuleStore::new();
    store.put("k".to_string(), b"one").unwrap();
    store.put("k".to_string(), b"two").unwrap();
    assert_eq!(&store.get("k").unwrap()[..], b"two");
}

#[test]
fn round_trip_arbitrary_bytes() {
    let mut store = MemModuleStore::new();
    let bytes: Vec<u8> = vec![0, 1, 2, 255, 128, 7];
    store.put("file:///m.js".to_string(), &bytes).unwrap();
    assert_eq!(store.get("file:///m.js").unwrap(), bytes);
}

#[test]
fn hash_path_is_deterministic_and_fanned_out() {
    let a = to_hash_path("/cache", "https://example.com/a.js");
    let b = to_hash_path("/cache", "https://example.com/a.js");
    assert_eq!(a, b);
    // base, a slash, two hex digits, a slash, fourteen hex digits
    assert_eq!(a.len(), "/cache".len() + 18);
    assert!(a.starts_with("/cache/"));
    let tail = &a["/cache/".len()..];
    assert_eq!(tail.as_bytes()[2], b'/');
    assert!(tail
        .chars()
        .enumerate()
        .all(|(i, c)| i == 2 || c.is_ascii_hexdigit()));
}

#[test]
fn hash_path_differs_for_different_keys() {
    let a = to_hash_path("/cache", "https://example.com/a.js");
    let b = to_hash_path("/cache", "https://example.com/b.js");
    assert_ne!(a, b);
}
