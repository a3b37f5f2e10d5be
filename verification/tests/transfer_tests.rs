use objstore::errors::TransferError;
use objstore::store::MemStore;
use objstore::transfer::{append_page_keys, collect_keys, plan_download, plan_upload};

#[test]
fn upload_of_missing_path_fails_before_any_request() {
    let r = plan_upload(false, "bucket", "no-such-file.bin");
    assert_eq!(r.err(), Some(TransferError::NotFound));
}

#[test]
fn upload_uses_path_as_key_verbatim() {
    let p = plan_upload(true, "bucket", "src/main.rs").unwrap();
    assert_eq!(p.bucket, "bucket");
    assert_eq!(p.key, "src/main.rs");
}

#[test]
fn upload_content_type_comes_from_extension() {
    let p = plan_upload(true, "bucket", "videos/ski-02.mp4").unwrap();
    assert_eq!(p.content_type, "video/mp4");
}

#[test]
fn download_into_missing_directory_fails_before_any_request() {
    let r = plan_download(false, "bucket", "videos/ski-02.mp4", ".test-data/downloads/");
    assert_eq!(r.err(), Some(TransferError::InvalidDestination));
}

#[test]
fn download_of_nested_key_builds_nested_file_path() {
    let p = plan_download(true, "bucket", "videos/ski-02.mp4", ".test-data/downloads/").unwrap();
    assert_eq!(p.bucket, "bucket");
    assert_eq!(p.key, "videos/ski-02.mp4");
    assert_eq!(p.file_path, ".test-data/downloads/videos/ski-02.mp4");
    assert_eq!(p.parent, ".test-data/downloads/videos");
}

#[test]
fn download_join_inserts_separator_when_directory_lacks_one() {
    let p = plan_download(true, "bucket", "a.txt", "dir").unwrap();
    assert_eq!(p.file_path, "dir/a.txt");
    assert_eq!(p.parent, "dir");
}

#[test]
fn download_of_degenerate_key_fails_with_invalid_key() {
    let r = plan_download(true, "bucket", "", "");
    assert_eq!(r.err(), Some(TransferError::InvalidKey));
}

#[test]
fn listing_entries_without_keys_are_skipped() {
    let entries = vec![
        Some(String::from("a")),
        None,
        Some(String::from("b/c")),
        None,
    ];
    let keys = collect_keys(&entries);
    assert_eq!(keys, vec![String::from("a"), String::from("b/c")]);
}

#[test]
fn listing_with_no_entries_yields_no_keys() {
    let entries: Vec<Option<String>> = Vec::new();
    let keys = collect_keys(&entries);
    assert!(keys.is_empty());
}

#[test]
fn pages_fold_into_one_listing_in_order() {
    let mut acc: Vec<String> = Vec::new();
    append_page_keys(&mut acc, &vec![Some(String::from("a")), None]);
    append_page_keys(&mut acc, &vec![Some(String::from("b")), Some(String::from("c"))]);
    assert_eq!(
        acc,
        vec![String::from("a"), String::from("b"), String::from("c")]
    );
}

#[test]
fn upload_then_download_round_trips_through_a_store() {
    let mut store = MemStore::new();
    let body = vec![10u8, 20, 30, 40, 50];

    let up = plan_upload(true, "bucket", "videos/ski-02.mp4").unwrap();
    store.put(up.key.as_str(), body.clone());

    let down = plan_download(true, "bucket", "videos/ski-02.mp4", ".test-data/downloads/")
        .unwrap();
    let fetched = store.get(down.key.as_str()).unwrap();
    assert_eq!(fetched, &body);
}

#[test]
fn second_upload_wins_on_download() {
    let mut store = MemStore::new();
    store.put("videos/ski-02.mp4", vec![1u8]);
    store.put("videos/ski-02.mp4", vec![2u8, 3]);
    assert_eq!(store.get("videos/ski-02.mp4"), Some(&vec![2u8, 3]));
}
