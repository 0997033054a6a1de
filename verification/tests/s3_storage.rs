use diaspor_vfs::s3_transfer::{
    rename_check_failure, CopyAction, RenameAction, S3Copy, S3Rename, TransferEvent,
};
use diaspor_vfs::s3::object_delete_outcome;
use diaspor_vfs::bytes::{append_bytes, truncate_bytes, write_at_bytes};
use diaspor_vfs::domain::{StorageTier, VirtualFile};
use diaspor_vfs::listing::{paginate, sort_listing};
use diaspor_vfs::paths::{file_name, join_child, join_path, to_key};
use diaspor_vfs::s3::{
    block_count, check_copy_keys, classify_delete_failure, classify_mkdir_failure,
    collect_children, delete_already_gone, diagnose_list_failure, directory_marker,
    is_permission_error, listing_from_entries, plan_removal, removal_failed, tree_removal_outcome, validate_bucket,
    CopyKeyProblem, DeleteFailure, MkdirFailure, ObjectEntry, RemovalPlan, S3Error,
    S3StorageAdapter,
};

#[test]
fn test_to_key_removes_leading_slash() {
    let path = "/some/path/to/file.txt";
    let expected = "some/path/to/file.txt";
    let result = to_key(path);
    assert_eq!(result, expected);
}

#[test]
fn test_to_key_handles_no_leading_slash() {
    let path = "relative/path.txt";
    let result = to_key(path);
    assert_eq!(result, "relative/path.txt");
}

#[test]
fn test_detect_tier_standard() {
    assert_eq!(S3StorageAdapter::detect_tier(Some("STANDARD")), StorageTier::Nearline);
    assert_eq!(S3StorageAdapter::detect_tier(None), StorageTier::Nearline);
}

#[test]
fn test_detect_tier_glacier() {
    assert_eq!(S3StorageAdapter::detect_tier(Some("GLACIER")), StorageTier::Cold);
    assert_eq!(S3StorageAdapter::detect_tier(Some("GLACIER_IR")), StorageTier::Cold);
    assert_eq!(S3StorageAdapter::detect_tier(Some("DEEP_ARCHIVE")), StorageTier::Cold);
}

#[test]
fn test_detect_tier_infrequent_access() {
    assert_eq!(S3StorageAdapter::detect_tier(Some("STANDARD_IA")), StorageTier::Nearline);
    assert_eq!(S3StorageAdapter::detect_tier(Some("ONEZONE_IA")), StorageTier::Nearline);
    assert_eq!(S3StorageAdapter::detect_tier(Some("INTELLIGENT_TIERING")), StorageTier::Nearline);
}

#[test]
fn test_detect_tier_unknown() {
    assert_eq!(S3StorageAdapter::detect_tier(Some("UNKNOWN")), StorageTier::Nearline);
}

#[test]
fn to_key_drops_dot_and_empty_components_at_the_ends() {
    assert_eq!(to_key("//a/./b/"), "a/./b");
    assert_eq!(to_key("/./a/b/."), "a/b");
    assert_eq!(to_key("/"), "");
    assert_eq!(to_key(""), "");
    assert_eq!(to_key("a/b/"), "a/b/");
}

#[test]
fn to_key_is_idempotent_on_examples() {
    for p in ["/x/y/", "//./z", "plain", "/"] {
        let k = to_key(p);
        assert_eq!(to_key(&k), k);
    }
}

#[test]
fn file_name_follows_path_rules() {
    assert_eq!(file_name("/path/to/file.txt").as_deref(), Some("file.txt"));
    assert_eq!(file_name("/path/to/folder/").as_deref(), Some("folder"));
    assert_eq!(file_name("/path/to/folder/.").as_deref(), Some("folder"));
    assert_eq!(file_name("/"), None);
    assert_eq!(file_name("a/.."), None);
    assert_eq!(file_name("."), None);
}

#[test]
fn joins_follow_pathbuf() {
    assert_eq!(join_child("", "a"), "/a");
    assert_eq!(join_child("/", "a"), "/a");
    assert_eq!(join_child("//.", "a"), "/a");
    assert_eq!(join_child("/x", "a"), "/x/a");
    assert_eq!(join_child("/x/", "a"), "/x/a");
    assert_eq!(join_path("dir", "/abs"), "/abs");
    assert_eq!(join_path("", "rel"), "rel");
    assert_eq!(join_path("dir", "rel"), "dir/rel");
}

#[test]
fn bucket_names_are_checked() {
    assert!(matches!(validate_bucket("   "), Err(S3Error::EmptyBucket)));
    assert!(matches!(validate_bucket("my bucket"), Err(S3Error::BucketContainsSpaces { .. })));
    match validate_bucket("ab") {
        Err(S3Error::BucketLength { bucket, length }) => {
            assert_eq!(bucket, "ab");
            assert_eq!(length, 2);
        }
        _ => panic!("expected a length error"),
    }
    assert_eq!(validate_bucket("  diaspor-vfs-test ").ok().as_deref(), Some("diaspor-vfs-test"));
    let long = "a".repeat(64);
    assert!(matches!(validate_bucket(&long), Err(S3Error::BucketLength { length: 64, .. })));
    assert!(matches!(validate_bucket("My_Bucket"), Err(S3Error::BucketCharacters { .. })));
    assert!(matches!(validate_bucket("my_bucket"), Err(S3Error::BucketCharacters { .. })));
    assert!(matches!(validate_bucket("-abc"), Err(S3Error::BucketEdges { .. })));
    assert!(matches!(validate_bucket("abc."), Err(S3Error::BucketEdges { .. })));
    assert!(matches!(validate_bucket("192.168.5.4"), Err(S3Error::BucketIpAddress { .. })));
    assert_eq!(validate_bucket("192.168.5.4.5").ok().as_deref(), Some("192.168.5.4.5"));
    assert_eq!(validate_bucket("logs.v2-archive").ok().as_deref(), Some("logs.v2-archive"));
}

#[test]
fn new_adapter_rejects_bad_bucket_and_lowercases_region() {
    let r = S3StorageAdapter::new(
        " ".to_string(),
        "US-EAST-1".to_string(),
        None,
        None,
        None,
        None,
        "name".to_string(),
    );
    assert!(matches!(r, Err(S3Error::EmptyBucket)));
    let r = S3StorageAdapter::new(
        " my-bucket ".to_string(),
        "US-EAST-1".to_string(),
        Some("AKIDEXAMPLE".to_string()),
        Some("SECRET-REDACTED".to_string()),
        None,
        Some("http://127.0.0.1:9000".to_string()),
        "Display".to_string(),
    );
    match r {
        Ok(a) => {
            assert_eq!(a.bucket(), "my-bucket");
            assert_eq!(a.region(), "us-east-1");
            assert_eq!(a.name(), "Display");
            assert_eq!(a.unsigned_object_url("/k/x.mp4"), "http://127.0.0.1:9000/k/x.mp4");
        }
        Err(S3Error::Backend(_)) => {}
        Err(e) => panic!("unexpected error {:?}", e),
    }
}

fn entry(name: &str, is_dir: bool, size: u64) -> ObjectEntry {
    ObjectEntry { name: name.to_string(), is_dir, size, modified: None }
}

#[test]
fn listing_keeps_first_child_and_skips_transient_entries() {
    let entries = vec![
        entry("", false, 0),
        entry("/", true, 0),
        entry("b.txt", false, 3),
        entry("Alpha/", true, 0),
        entry("alpha/inner.txt", false, 9),
        entry("movie.mp4.part", false, 1),
        entry("chunk.chunk.1", false, 1),
        entry("b.txt", false, 99),
    ];
    let files = collect_children("/", "", &entries);
    let names: Vec<&str> = files.iter().map(|f| f.name.as_str()).collect();
    assert_eq!(names, vec!["b.txt", "Alpha", "alpha"]);
    assert_eq!(files[0].size, 3);
    assert_eq!(files[0].path, "/b.txt");
    assert_eq!(files[0].retrieval_time_estimate, Some(0));
    let sorted = listing_from_entries("/", "", &entries);
    let names: Vec<&str> = sorted.iter().map(|f| f.name.as_str()).collect();
    assert_eq!(names, vec!["Alpha", "alpha", "b.txt"]);
}

#[test]
fn listing_under_a_prefix_strips_it() {
    let entries = vec![entry("docs/", true, 0), entry("docs/a.txt", false, 1), entry("other", false, 1)];
    let files = collect_children("/docs", "docs/", &entries);
    assert_eq!(files.len(), 1);
    assert_eq!(files[0].name, "a.txt");
    assert_eq!(files[0].path, "/docs/a.txt");
    assert_eq!(S3StorageAdapter::list_prefix("/docs"), "docs/");
    assert_eq!(S3StorageAdapter::list_prefix("/"), "");
}

fn vf(name: &str, dir: bool) -> VirtualFile {
    VirtualFile {
        name: name.to_string(),
        path: format!("/{}", name),
        size: 0,
        is_directory: dir,
        modified: None,
        tier: StorageTier::Nearline,
        is_cached: false,
        can_warm: true,
        retrieval_time_estimate: Some(0),
    }
}

#[test]
fn sorting_puts_directories_first_and_is_stable() {
    let files = vec![vf("b", false), vf("Z", true), vf("a", false), vf("B", false), vf("a", true)];
    let sorted = sort_listing(files);
    let names: Vec<(&str, bool)> = sorted.iter().map(|f| (f.name.as_str(), f.is_directory)).collect();
    assert_eq!(names, vec![("a", true), ("Z", true), ("a", false), ("b", false), ("B", false)]);
}

#[test]
fn pagination_follows_tokens() {
    let files: Vec<VirtualFile> = ["c", "a", "b", "d"].iter().map(|n| vf(n, false)).collect();
    let (page, next) = paginate(files, Some(2), None);
    let names: Vec<&str> = page.iter().map(|f| f.name.as_str()).collect();
    assert_eq!(names, vec!["a", "b"]);
    assert_eq!(next.as_deref(), Some("/b"));
    let files: Vec<VirtualFile> = ["c", "a", "b", "d"].iter().map(|n| vf(n, false)).collect();
    let (page, next) = paginate(files, Some(2), Some("/b"));
    let names: Vec<&str> = page.iter().map(|f| f.name.as_str()).collect();
    assert_eq!(names, vec!["c", "d"]);
    assert_eq!(next, None);
    let files: Vec<VirtualFile> = ["c", "a"].iter().map(|n| vf(n, false)).collect();
    let (page, next) = paginate(files, None, Some("/missing"));
    assert_eq!(page.len(), 2);
    assert_eq!(next, None);
}

#[test]
fn byte_rewrites() {
    assert_eq!(append_bytes(Some(vec![1, 2]), &[3]), vec![1, 2, 3]);
    assert_eq!(append_bytes(None, &[3]), vec![3]);
    assert_eq!(write_at_bytes(vec![1, 2, 3], 1, &[9]), vec![1, 9, 3]);
    assert_eq!(write_at_bytes(vec![1], 3, &[7, 8]), vec![1, 0, 0, 7, 8]);
    assert_eq!(truncate_bytes(vec![1, 2, 3], 2), vec![1, 2]);
    assert_eq!(truncate_bytes(vec![1, 2, 3], 10), vec![1, 2, 3]);
}

#[test]
fn directory_markers_and_removal_plans() {
    assert_eq!(directory_marker("/photos/2024"), Some("photos/2024/".to_string()));
    assert_eq!(directory_marker("/"), None);
    match plan_removal("/dir", true, Some(vec!["dir/a".to_string(), "elsewhere".to_string()])) {
        RemovalPlan::Directory(keys) => assert_eq!(keys, vec!["dir/a".to_string(), "dir/".to_string()]),
        _ => panic!("expected a directory removal"),
    }
    match plan_removal("/file.txt", false, None) {
        RemovalPlan::SingleObject(k) => assert_eq!(k, "file.txt"),
        _ => panic!("expected a single removal"),
    }
    assert!(removal_failed(&vec![true, true]));
    assert!(!removal_failed(&vec![true, false]));
    assert!(!removal_failed(&vec![]));
}

#[test]
fn error_texts_are_classified() {
    assert_eq!(classify_delete_failure("video.mp4.part1", "AccessDenied", true), DeleteFailure::OrphanedPart);
    assert_eq!(classify_delete_failure("k", "Error 403 AccessDenied", true), DeleteFailure::AccessDenied);
    assert_eq!(classify_delete_failure("k", "NoSuchKey", true), DeleteFailure::AlreadyGone);
    assert_eq!(classify_delete_failure("k", "InvalidObjectState", false), DeleteFailure::NeedsRestore);
    assert_eq!(classify_delete_failure("k", "VersionId mismatch", true), DeleteFailure::Versioning);
    assert_eq!(classify_delete_failure("k", "VersionId mismatch", false), DeleteFailure::Other);
    assert!(delete_already_gone("object Not Found"));
    assert_eq!(classify_mkdir_failure("write path is a directory"), MkdirFailure::AlreadyDirectory);
    assert_eq!(classify_mkdir_failure("PermissionDenied"), MkdirFailure::PermissionDenied);
    assert_eq!(classify_mkdir_failure("boom"), MkdirFailure::Other);
    assert!(is_permission_error("HTTP 403"));
    let d = diagnose_list_failure("ExpiredToken: the token expired", "");
    assert!(d.expired_token && !d.access_denied);
    assert_eq!(check_copy_keys("/", "/b"), Err(CopyKeyProblem::EmptySource));
    assert_eq!(check_copy_keys("/a", "/"), Err(CopyKeyProblem::EmptyDestination));
    assert_eq!(block_count(0), 0);
    assert_eq!(block_count(513), 2);
}

#[test]
fn metadata_records_are_named_after_the_path() {
    let e = ObjectEntry { name: "x".to_string(), is_dir: false, size: 42, modified: Some(7) };
    let r = S3StorageAdapter::metadata_record("/docs/report.pdf", &e);
    assert_eq!(r.name, "report.pdf");
    assert_eq!(r.path, "/docs/report.pdf");
    assert_eq!(r.size, 42);
    assert_eq!(r.modified, Some(7));
    assert_eq!(r.tier, StorageTier::Nearline);
    assert_eq!(r.retrieval_time_estimate, Some(0));
    assert!(r.can_warm && !r.is_cached);
    let root = S3StorageAdapter::metadata_record("/", &e);
    assert_eq!(root.name, "");
}

#[test]
fn a_rename_onto_the_same_key_stays_in_place() {
    let (mut r, a) = S3Rename::start("/a/b.txt", "a/b.txt");
    assert!(matches!(a, RenameAction::CheckExists(ref k) if k == "a/b.txt"));
    assert!(matches!(r.step(TransferEvent::Exists(true)), RenameAction::Done));
    let (mut r, _) = S3Rename::start("/a/b.txt", "/a/c.txt");
    assert!(matches!(r.step(TransferEvent::Exists(true)), RenameAction::CheckExists(ref k) if k == "a/c.txt"));
    assert!(matches!(r.step(TransferEvent::Exists(false)), RenameAction::Stat(ref k) if k == "a/b.txt"));
    match r.step(TransferEvent::IsDir(true)) {
        RenameAction::Copy { from, to, overwrite, recursive } => {
            assert_eq!((from.as_str(), to.as_str(), overwrite, recursive), ("/a/b.txt", "/a/c.txt", true, true));
        }
        other => panic!("unexpected {:?}", other),
    }
    assert!(matches!(r.step(TransferEvent::Copied), RenameAction::RemoveTree(ref p) if p == "/a/b.txt"));
    assert!(matches!(r.step(TransferEvent::Removed), RenameAction::Done));
    let (mut r, _) = S3Rename::start("/x", "/y");
    assert!(matches!(r.step(TransferEvent::Exists(false)), RenameAction::Fail(ref m) if m == "Source does not exist: x"));
    assert_eq!(
        rename_check_failure(false, "y", "AccessDenied"),
        "Permission denied: Cannot check if destination exists 'y'. Check IAM permissions: s3:GetObject, s3:ListBucket. Error: AccessDenied"
    );
}

#[test]
fn a_directory_copy_copies_each_child_then_its_marker() {
    let (mut c, a) = S3Copy::start("/docs", "/backup/docs", false, true).unwrap();
    assert!(matches!(a, CopyAction::CheckExists(ref k) if k == "backup/docs"));
    assert!(matches!(c.step(TransferEvent::Exists(false)), CopyAction::CheckExists(ref k) if k == "docs"));
    assert!(matches!(c.step(TransferEvent::Exists(true)), CopyAction::Stat(ref k) if k == "docs"));
    assert!(matches!(c.step(TransferEvent::IsDir(true)), CopyAction::List(ref p) if p == "docs/"));
    match c.step(TransferEvent::Listed(vec!["docs/a.txt".to_string(), "docs/sub/b".to_string()])) {
        CopyAction::CopyChildren(ps) => assert_eq!(
            ps,
            vec![
                ("/docs/a.txt".to_string(), "/backup/docs/a.txt".to_string()),
                ("/docs/sub/b".to_string(), "/backup/docs/sub/b".to_string()),
            ]
        ),
        other => panic!("unexpected {:?}", other),
    }
    assert!(matches!(c.step(TransferEvent::ChildrenCopied), CopyAction::CheckExists(ref k) if k == "docs/"));
    assert!(matches!(
        c.step(TransferEvent::Exists(true)),
        CopyAction::CopyMarker { ref from, ref to } if from == "docs/" && to == "backup/docs/"
    ));
    assert!(matches!(c.step(TransferEvent::MarkerCopied), CopyAction::Done));
    let (mut c, _) = S3Copy::start("/a", "/b", true, false).unwrap();
    c.step(TransferEvent::Exists(true));
    assert!(matches!(c.step(TransferEvent::IsDir(false)), CopyAction::CopyObject { .. }));
    assert!(matches!(
        c.step(TransferEvent::ReadFailed("gone".to_string())),
        CopyAction::Fail(ref m) if m == "Failed to read source object 'a': gone"
    ));
    assert_eq!(S3Copy::start("/", "/b", true, false).err().unwrap(), "Source path cannot be empty");
    let (mut c, _) = S3Copy::start("/a", "/b", false, false).unwrap();
    assert!(matches!(c.step(TransferEvent::Exists(true)), CopyAction::Fail(ref m) if m == "Destination already exists: b"));
}

#[test]
fn following_every_token_reads_the_whole_listing_once() {
    let names = ["e", "c", "a", "g", "b", "d", "f"];
    let make = || names.iter().map(|n| vf(n, false)).collect::<Vec<VirtualFile>>();
    for limit in 1..=8u64 {
        let mut read: Vec<String> = Vec::new();
        let mut token: Option<String> = None;
        loop {
            let (page, next) = paginate(make(), Some(limit), token.as_deref());
            assert!(page.len() as u64 <= limit);
            read.extend(page.iter().map(|f| f.name.clone()));
            match next {
                Some(t) => token = Some(t),
                None => break,
            }
        }
        assert_eq!(read, vec!["a", "b", "c", "d", "e", "f", "g"]);
    }
}

#[test]
fn a_tree_removal_fails_only_when_every_delete_failed() {
    let gone = Some("NoSuchKey: object missing".to_string());
    let denied = Some("AccessDenied (403)".to_string());
    assert_eq!(tree_removal_outcome("d", &vec![None, gone.clone()]), Ok(()));
    assert_eq!(tree_removal_outcome("d", &vec![denied.clone(), None]), Ok(()));
    assert_eq!(tree_removal_outcome("d", &vec![denied.clone(), gone.clone()]), Ok(()));
    assert_eq!(tree_removal_outcome("d", &Vec::new()), Ok(()));
    assert_eq!(
        tree_removal_outcome("d", &vec![denied.clone(), Some("timeout".to_string())]),
        Err("Failed to delete directory 'd': All 2 delete operations failed. First error: AccessDenied (403)".to_string())
    );
}

#[test]
fn deleting_a_missing_object_succeeds_but_a_part_file_does_not() {
    assert!(object_delete_outcome("b", "a.txt", &None, true).is_ok());
    let gone = Some("NotFound (persistent) at delete, context: { response: ... NoSuchKey }".to_string());
    assert!(object_delete_outcome("b", "a.txt", &gone, true).is_ok());
    assert!(object_delete_outcome("b", "a.txt", &gone, true).is_ok());
    let m = object_delete_outcome("b", "x.part", &gone, true).unwrap_err();
    assert!(m.starts_with("Failed to delete S3 object 'x.part': NotFound"));
    assert!(m.ends_with("--bucket b --key x.part --upload-id <id>"));
    assert_eq!(
        object_delete_outcome("b", "k", &Some("boom".to_string()), true).unwrap_err(),
        "Failed to delete S3 object 'k': boom"
    );
    assert!(object_delete_outcome("b", "k", &Some("AccessDenied".to_string()), false)
        .unwrap_err()
        .contains("Access Denied. Check IAM permissions"));
}
