use diaspor_vfs::domain::{StorageTier, VirtualFile};
use diaspor_vfs::listing::sort_local_listing;
use diaspor_vfs::local::{
    is_under_base, list_local, local_child_path, local_copy_check, local_copy_name_taken, LocalCopyKind,
    LocalCopyStart, LocalEntry, LocalLookup, LocalStorageAdapter,
};
use diaspor_vfs::store::{DecryptError, FileSettingsStore};

#[test]
fn local_paths_resolve_under_the_base() {
    let a = LocalStorageAdapter::new("/data/media".to_string(), "Media".to_string());
    assert_eq!(a.name(), "Media");
    assert_eq!(a.base_path(), "/data/media");
    assert_eq!(a.resolve_path("/data/media/x.txt"), "/data/media/x.txt");
    assert_eq!(a.resolve_path("/x.txt"), "/data/media/x.txt");
    assert_eq!(a.resolve_path("sub/x.txt"), "/data/media/sub/x.txt");
    assert_eq!(a.resolve_path("/"), "/data/media");
    assert_eq!(a.resolve_path(""), "/data/media");
    assert_eq!(a.resolve_path("/data/mediaX/y"), "/data/media/data/mediaX/y");
    assert_eq!(a.resolve_path("\\/etc"), "/data/media/etc");
    assert_eq!(a.resolve_path("/\\/\\sub\\x"), "/data/media/sub\\x");
    assert_eq!(a.resolve_path("\\"), "/data/media");
}

#[test]
fn under_base_is_component_wise() {
    assert!(is_under_base("/data/media/a", "/data/media"));
    assert!(is_under_base("/data//media/./a", "/data/media/"));
    assert!(!is_under_base("/data/mediaX", "/data/media"));
    assert!(is_under_base("/anything", ""));
    assert!(!is_under_base("/data", "data"));
}

#[test]
fn settings_store_locations() {
    let s = FileSettingsStore::new(Some("/home/me/.local/share"));
    assert_eq!(s.settings_file(), "/home/me/.local/share/diaspor/vfs/settings.json");
    assert!(!s.is_encryption_enabled());
    let s = FileSettingsStore::new(None);
    assert_eq!(s.settings_file(), "./diaspor/vfs/settings.json");
    let f = FileSettingsStore::fallback();
    assert_eq!(f.settings_file(), "/tmp/diaspor_settings.json");
    let e = FileSettingsStore::with_encryption(Some("/d"), vec![1, 2, 3]);
    assert!(e.is_encryption_enabled());
}

#[test]
fn secrets_are_encoded_and_decoded() {
    let s = FileSettingsStore::new(None);
    assert_eq!(s.encrypt("hi"), "aGk=");
    assert_eq!(s.encrypt(""), "");
    assert_eq!(s.decrypt("aGk=").unwrap(), "hi");
    let secret = "wJalrXUtnFEMI/K7MDENG/bPxRfiCYEXAMPLEKEY";
    assert_eq!(s.decrypt(&s.encrypt(secret)).unwrap(), secret);
    assert_eq!(s.decrypt("not base64!"), Err(DecryptError::InvalidBase64));
    assert_eq!(s.decrypt("/w=="), Err(DecryptError::InvalidUtf8));
}

#[test]
fn local_listing_paths() {
    assert_eq!(local_child_path("/", "a.txt"), "/a.txt");
    assert_eq!(local_child_path("", "a.txt"), "/a.txt");
    assert_eq!(local_child_path("//", "a.txt"), "/a.txt");
    assert_eq!(local_child_path("/photos", "a.txt"), "/photos/a.txt");
    assert_eq!(local_child_path("/photos/", "a.txt"), "/photos/a.txt");
}

fn entry(name: &str, dir: bool) -> VirtualFile {
    VirtualFile {
        name: name.to_string(),
        path: format!("/{}", name),
        size: 0,
        is_directory: dir,
        modified: None,
        tier: StorageTier::Hot,
        is_cached: false,
        can_warm: false,
        retrieval_time_estimate: None,
    }
}

#[test]
fn local_listings_sort_names_as_they_are() {
    let files = vec![entry("b", false), entry("Z", true), entry("a", false), entry("B", false), entry("a", true)];
    let sorted = sort_local_listing(files);
    let names: Vec<(&str, bool)> = sorted.iter().map(|f| (f.name.as_str(), f.is_directory)).collect();
    assert_eq!(names, vec![("Z", true), ("a", true), ("B", false), ("a", false), ("b", false)]);
}

fn local_entry(name: &str, is_dir: bool, len: u64) -> LocalEntry {
    LocalEntry { name: name.to_string(), is_dir, len, modified: Some(7) }
}

#[test]
fn local_listing_puts_folders_first_then_byte_order() {
    let files = list_local(
        "/",
        "/data",
        LocalLookup::Directory,
        vec![local_entry("b.txt", false, 5), local_entry("a", true, 4096), local_entry("A", false, 1), local_entry("z", true, 0)],
    )
    .unwrap();
    let paths: Vec<&str> = files.iter().map(|f| f.path.as_str()).collect();
    assert_eq!(paths, vec!["/a", "/z", "/A", "/b.txt"]);
    assert_eq!(files[0].size, 0);
    assert_eq!(files[3].size, 5);
    assert_eq!(files[3].modified, Some(7));
    let nested = list_local("/docs", "/data/docs", LocalLookup::Directory, vec![local_entry("n", false, 1)]).unwrap();
    assert_eq!(nested[0].path, "/docs/n");
    assert!(list_local("/gone", "/data/gone", LocalLookup::Missing, Vec::new()).unwrap().is_empty());
    assert_eq!(
        list_local("/f", "/data/f", LocalLookup::NotADirectory, Vec::new()).unwrap_err().message(),
        "Path is not a directory: \"/data/f\""
    );
}

#[test]
fn local_copy_onto_itself_searches_copy_names_up_to_a_limit() {
    let a = LocalStorageAdapter::new("/data".to_string(), "d".to_string());
    match a.copy_start("/x.txt", "/y.txt") {
        LocalCopyStart::Direct { from, to } => {
            assert_eq!(from, "/data/x.txt");
            assert_eq!(to, "/data/y.txt");
        }
        _ => panic!("expected a direct copy"),
    }
    match a.copy_start("/docs/x.tar.gz", "docs/x.tar.gz") {
        LocalCopyStart::Rename { from, mut search } => {
            assert_eq!(from, "/data/docs/x.tar.gz");
            assert_eq!(search.candidate(), "/data/docs/x.tar copy.gz");
            assert!(local_copy_name_taken(&mut search).is_ok());
            assert_eq!(search.candidate(), "/data/docs/x.tar copy 2.gz");
            let mut taken = 2;
            while local_copy_name_taken(&mut search).is_ok() {
                taken += 1;
            }
            assert_eq!(taken, 101);
            assert_eq!(local_copy_name_taken(&mut search).unwrap_err(), "Cannot generate unique name for copy");
        }
        _ => panic!("expected a search for a free name"),
    }
    assert_eq!(
        local_copy_check("/data/d", "/data/d/sub/d", true, false, false).unwrap_err(),
        "Cannot copy folder \"d\" into itself"
    );
    assert_eq!(local_copy_check("/data/d", "/data/e", true, true, false).unwrap(), LocalCopyKind::Tree);
    assert_eq!(
        local_copy_check("/data/f", "/data/g", false, true, false).unwrap_err(),
        "Destination file already exists: \"/data/g\""
    );
    assert_eq!(local_copy_check("/data/f", "/data/g", false, true, true).unwrap(), LocalCopyKind::File);
}
