use diaspor_vfs::blobstore::{
    blob_listing_from_entries, blob_removal_keys, write_within_bytes, AzureBlobStorageAdapter,
    BlobStoreError, OracleObjectStorageAdapter,
};
use diaspor_vfs::domain::StorageTier;
use diaspor_vfs::s3::ObjectEntry;

fn entry(name: &str, size: u64, modified: Option<i64>) -> ObjectEntry {
    ObjectEntry { name: name.to_string(), is_dir: name.ends_with('/'), size, modified }
}

#[test]
fn blob_listings_show_first_level_directories_once() {
    let entries = vec![
        entry("photos/a.jpg", 10, Some(5)),
        entry("photos/b.jpg", 11, Some(6)),
        entry("readme.md", 7, Some(9)),
        entry("upload.part", 1, None),
        entry("", 0, None),
    ];
    let files = blob_listing_from_entries("", "", &entries);
    assert_eq!(files.len(), 2);
    assert!(files[0].is_directory);
    assert_eq!(files[0].name, "photos");
    assert_eq!(files[0].path, "/photos");
    assert_eq!(files[0].size, 0);
    assert!(!files[1].is_directory);
    assert_eq!(files[1].name, "readme.md");
    assert_eq!(files[1].path, "/readme.md");
    assert_eq!(files[1].size, 7);
    assert_eq!(files[1].modified, Some(9));
    assert_eq!(files[1].tier, StorageTier::Hot);
    assert!(files[1].can_warm);
}

#[test]
fn blob_listings_under_a_key() {
    let entries = vec![entry("docs/2024/q1.pdf", 3, None), entry("docs/notes.txt", 4, None)];
    let files = blob_listing_from_entries("docs", "docs/", &entries);
    assert_eq!(files.len(), 2);
    assert_eq!(files[0].path, "/docs/2024");
    assert!(files[0].is_directory);
    assert_eq!(files[1].path, "/docs/notes.txt");
}

#[test]
fn writes_stay_inside_the_object() {
    assert_eq!(write_within_bytes(vec![1, 2, 3, 4], 1, &[9, 9]), vec![1, 9, 9, 4]);
    assert_eq!(write_within_bytes(vec![1, 2], 2, &[]), vec![1, 2]);
}

#[test]
fn recursive_removal_keys() {
    let keys = blob_removal_keys("/docs/old", vec!["docs/old/a".to_string(), "docs/old/b".to_string()]);
    assert_eq!(keys, vec!["docs/old/a", "docs/old/b", "docs/old", "docs/old/"]);
}

#[test]
fn blob_adapters_check_their_names() {
    assert!(matches!(
        AzureBlobStorageAdapter::new("  ".to_string(), "acct".to_string(), None, None, "n".to_string()),
        Err(BlobStoreError::EmptyName)
    ));
    assert!(matches!(
        AzureBlobStorageAdapter::new("c".to_string(), "acct".to_string(), None, None, "n".to_string()),
        Err(BlobStoreError::Backend(_))
    ));
    let a = AzureBlobStorageAdapter::new(
        " media ".to_string(),
        "acct".to_string(),
        Some("a2V5".to_string()),
        Some("https://acct.blob.core.windows.net".to_string()),
        "Media".to_string(),
    )
    .unwrap();
    assert_eq!(a.name(), "Media");
    assert!(matches!(
        OracleObjectStorageAdapter::new(
            "".to_string(),
            "ns".to_string(),
            "us-ashburn-1".to_string(),
            None,
            None,
            None,
            "o".to_string()
        ),
        Err(BlobStoreError::EmptyName)
    ));
    let o = OracleObjectStorageAdapter::new(
        "bucket".to_string(),
        "ns".to_string(),
        "US-ASHBURN-1".to_string(),
        Some("ak".to_string()),
        Some("sk".to_string()),
        None,
        "Oracle".to_string(),
    )
    .unwrap();
    assert_eq!(o.name(), "Oracle");
}
