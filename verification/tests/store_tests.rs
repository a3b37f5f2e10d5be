use objstore::store::MemStore;

#[test]
fn list_returns_only_keys_under_prefix() {
    let mut store = MemStore::new();
    store.put("videos/ski-01.mp4", vec![1u8, 2, 3]);
    store.put("images/logo.png", vec![4u8]);
    store.put("videos/ski-02.mp4", vec![5u8, 6]);

    let keys = store.list("videos/");
    assert_eq!(keys.len(), 2);
    for k in &keys {
        assert!(k.starts_with("videos/"));
    }
    assert!(keys.contains(&String::from("videos/ski-01.mp4")));
    assert!(keys.contains(&String::from("videos/ski-02.mp4")));
}

#[test]
fn list_of_empty_store_is_empty() {
    let store = MemStore::new();
    let keys = store.list("");
    assert!(keys.is_empty());
}

#[test]
fn list_without_matching_key_is_empty() {
    let mut store = MemStore::new();
    store.put("images/logo.png", vec![1u8]);
    let keys = store.list("videos/");
    assert!(keys.is_empty());
}

#[test]
fn list_with_empty_prefix_returns_all_keys() {
    let mut store = MemStore::new();
    store.put("a", vec![1u8]);
    store.put("b/c", vec![2u8]);
    let keys = store.list("");
    assert_eq!(keys.len(), 2);
    assert!(keys.contains(&String::from("a")));
    assert!(keys.contains(&String::from("b/c")));
}

#[test]
fn put_then_get_round_trips_bytes() {
    let mut store = MemStore::new();
    let body = vec![0u8, 255, 17, 42, 0];
    store.put("videos/ski-02.mp4", body.clone());
    assert_eq!(store.get("videos/ski-02.mp4"), Some(&body));
}

#[test]
fn put_overwrites_and_get_returns_newest() {
    let mut store = MemStore::new();
    store.put("doc.txt", vec![1u8, 1, 1]);
    store.put("doc.txt", vec![2u8, 2]);
    assert_eq!(store.get("doc.txt"), Some(&vec![2u8, 2]));
    let keys = store.list("");
    assert_eq!(keys.len(), 1);
}

#[test]
fn get_of_absent_key_is_none() {
    let mut store = MemStore::new();
    store.put("present", vec![9u8]);
    assert_eq!(store.get("absent"), None);
}
