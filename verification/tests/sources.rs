use diaspor_vfs::domain::{StorageSourceType, StorageTier, VirtualFile};
use diaspor_vfs::sources::{
    hydration_source_tier, local_source, mark_cached, s3_source, ConnectionStatus, SourceError,
    transfer_destination, SourceRegistry, StorageCategory,
};

fn ids(v: &[diaspor_vfs::sources::StorageSource]) -> Vec<String> {
    v.iter().map(|s| s.id.clone()).collect()
}

#[test]
fn added_sources_are_found_and_removed_ones_are_not() {
    let mut reg = SourceRegistry::new();
    assert!(reg.get_source("a").is_none());
    reg.add_source(local_source("a".to_string(), "Home".to_string(), "/home/me".to_string()));
    reg.add_source(local_source("b".to_string(), "Media".to_string(), "/media".to_string()));
    let a = reg.get_source("a").unwrap();
    assert_eq!(a.name, "Home");
    assert!(a.mounted);
    assert_eq!(a.mount_point.as_deref(), Some("/home/me"));
    assert_eq!(a.config.path_or_bucket, "/home/me");
    assert_eq!(ids(&reg.list_sources()), vec!["a", "b"]);
    reg.add_source(local_source("a".to_string(), "Renamed".to_string(), "/home/me".to_string()));
    assert_eq!(reg.get_source("a").unwrap().name, "Renamed");
    assert_eq!(reg.list_sources().len(), 2);
    let removed = reg.remove_source("a").unwrap();
    assert_eq!(removed.name, "Renamed");
    assert!(reg.get_source("a").is_none());
    assert!(reg.remove_source("a").is_none());
    assert_eq!(reg.get_source("b").unwrap().name, "Media");
}

#[test]
fn status_updates_mount_exactly_connected_sources() {
    let mut reg = SourceRegistry::new();
    reg.add_source(local_source("a".to_string(), "Home".to_string(), "/home".to_string()));
    assert_eq!(
        reg.update_source_status("a", ConnectionStatus::Error("offline".to_string())),
        Ok(())
    );
    let a = reg.get_source("a").unwrap();
    assert!(!a.mounted);
    assert!(matches!(a.status, ConnectionStatus::Error(ref m) if m == "offline"));
    reg.update_source_status("a", ConnectionStatus::Connected).unwrap();
    assert!(reg.get_source("a").unwrap().mounted);
    assert_eq!(
        reg.update_source_status("zz", ConnectionStatus::Connected),
        Err(SourceError::NotFound)
    );
}

#[test]
fn transfer_targets_are_connected_and_not_excluded() {
    let mut reg = SourceRegistry::new();
    reg.add_source(local_source("a".to_string(), "A".to_string(), "/a".to_string()));
    reg.add_source(s3_source(
        "b".to_string(),
        "B".to_string(),
        "bucket".to_string(),
        "us-east-1".to_string(),
        None,
        Ok(false),
    ));
    reg.add_source(local_source("c".to_string(), "C".to_string(), "/c".to_string()));
    assert_eq!(ids(&reg.get_transfer_targets(None)), vec!["a", "c"]);
    assert_eq!(ids(&reg.get_transfer_targets(Some("a"))), vec!["c"]);
}

#[test]
fn s3_sources_take_their_status_from_the_connection_test() {
    let ok = s3_source("i".to_string(), "n".to_string(), "bk".to_string(), "eu-west-1".to_string(), Some("http://e".to_string()), Ok(true));
    assert!(matches!(ok.status, ConnectionStatus::Connected));
    assert!(ok.mounted);
    assert!(ok.mount_point.is_none());
    assert_eq!(ok.config.region.as_deref(), Some("eu-west-1"));
    assert_eq!(ok.config.endpoint.as_deref(), Some("http://e"));
    assert!(ok.config.access_key.is_none() && ok.config.secret_key.is_none());
    let denied = s3_source("i".to_string(), "n".to_string(), "bk".to_string(), "eu-west-1".to_string(), None, Ok(false));
    match denied.status {
        ConnectionStatus::Error(m) => assert_eq!(
            m,
            "Connection test failed: Bucket 'bk' is not accessible. Verify credentials and bucket permissions."
        ),
        other => panic!("unexpected {:?}", other),
    }
    assert!(!denied.mounted);
    let failed = s3_source("i".to_string(), "n".to_string(), "bk".to_string(), "eu-west-1".to_string(), None, Err("timeout".to_string()));
    match failed.status {
        ConnectionStatus::Error(m) => assert_eq!(
            m,
            "Connection test error: timeout. Verify bucket name 'bk', region 'eu-west-1', and credentials are correct."
        ),
        other => panic!("unexpected {:?}", other),
    }
}

#[test]
fn real_paths_of_mounted_sources() {
    let mut reg = SourceRegistry::new();
    reg.add_source(local_source("a".to_string(), "A".to_string(), "/data/media".to_string()));
    reg.add_source(s3_source("s".to_string(), "S".to_string(), "b".to_string(), "r".to_string(), None, Ok(true)));
    assert_eq!(reg.get_real_path("a", "/data/media/x.mov").unwrap(), "/data/media/x.mov");
    assert_eq!(reg.get_real_path("a", "/clips/x.mov").unwrap(), "/data/media/clips/x.mov");
    assert_eq!(reg.get_real_path("a", "clips/x.mov").unwrap(), "/data/media/clips/x.mov");
    assert_eq!(reg.get_real_path("s", "/x"), Err(SourceError::NotLocal));
    assert_eq!(reg.get_real_path("zz", "/x"), Err(SourceError::NotFound));
}

#[test]
fn s3_credential_targets() {
    let mut reg = SourceRegistry::new();
    reg.add_source(local_source("a".to_string(), "A".to_string(), "/a".to_string()));
    reg.add_source(s3_source("s".to_string(), "S".to_string(), "bk".to_string(), "eu-west-1".to_string(), None, Ok(true)));
    let t = reg.s3_credentials_target("s").unwrap();
    assert_eq!((t.name.as_str(), t.bucket.as_str(), t.region.as_str()), ("S", "bk", "eu-west-1"));
    assert!(t.endpoint.is_none());
    assert!(matches!(reg.s3_credentials_target("a"), Err(SourceError::NotS3)));
    assert!(matches!(reg.s3_credentials_target("zz"), Err(SourceError::NotFound)));
    let mut no_region = s3_source("t".to_string(), "T".to_string(), "bk".to_string(), "r".to_string(), None, Ok(true));
    no_region.config.region = None;
    reg.add_source(no_region);
    assert!(matches!(reg.s3_credentials_target("t"), Err(SourceError::NoRegion)));
    assert_eq!(reg.s3_refresh_target("t").unwrap().region, "us-east-1");
    assert_eq!(reg.s3_refresh_target("s").unwrap().region, "eu-west-1");
    assert!(matches!(reg.s3_refresh_target("a"), Err(SourceError::NotS3)));
    assert!(matches!(reg.s3_refresh_target("zz"), Err(SourceError::NotFound)));
    assert_eq!(reg.get_source("s").unwrap().source_type, StorageSourceType::S3);
}

fn file(name: &str, dir: bool) -> VirtualFile {
    VirtualFile {
        name: name.to_string(),
        path: format!("/{}", name),
        size: 1,
        is_directory: dir,
        modified: None,
        tier: StorageTier::Cold,
        is_cached: false,
        can_warm: true,
        retrieval_time_estimate: None,
    }
}

#[test]
fn cached_files_are_shown_hot() {
    let mut files = vec![file("a", false), file("d", true), file("b", false)];
    mark_cached(&mut files, &vec![true, true, false]);
    assert_eq!(files[0].tier, StorageTier::Hot);
    assert!(files[0].is_cached && !files[0].can_warm);
    assert_eq!(files[1].tier, StorageTier::Cold);
    assert!(!files[1].is_cached);
    assert_eq!(files[2].tier, StorageTier::Cold);
    assert!(files[2].can_warm);
}

#[test]
fn hydration_tiers_by_category() {
    assert_eq!(hydration_source_tier(StorageCategory::Local), StorageTier::Hot);
    assert_eq!(hydration_source_tier(StorageCategory::Block), StorageTier::Hot);
    assert_eq!(hydration_source_tier(StorageCategory::Network), StorageTier::Warm);
    assert_eq!(hydration_source_tier(StorageCategory::Cloud), StorageTier::Cold);
    assert_eq!(hydration_source_tier(StorageCategory::Hybrid), StorageTier::Cold);
    assert_eq!(hydration_source_tier(StorageCategory::Custom), StorageTier::Cold);
}

#[test]
fn transfers_keep_the_final_name_under_the_target_folder() {
    assert_eq!(transfer_destination("/photos/cat.jpg", "/backup", false), "/backup/cat.jpg");
    assert_eq!(transfer_destination("/photos/album/", "/backup/", true), "/backup/album");
    assert_eq!(transfer_destination("/", "/backup", true), "/backup/dir");
    assert_eq!(transfer_destination("..", "/backup", false), "/backup/file");
}
