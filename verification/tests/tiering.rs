use diaspor_vfs::domain::{StorageSourceType, StorageTier};
use diaspor_vfs::s3::S3StorageAdapter;
use diaspor_vfs::tiering::{
    get_archive_storage_class, get_cold_storage_class, get_nearline_storage_class,
    get_provider_name, get_standard_storage_class, storage_class_for_tier, tiering_temp_key,
};

#[test]
fn storage_classes_per_provider() {
    assert_eq!(get_standard_storage_class(&StorageSourceType::S3), "STANDARD");
    assert_eq!(get_standard_storage_class(&StorageSourceType::AzureBlob), "Hot");
    assert_eq!(get_nearline_storage_class(&StorageSourceType::Gcs), "STANDARD");
    assert_eq!(get_cold_storage_class(&StorageSourceType::S3Compatible), "ARCHIVE");
    assert_eq!(get_cold_storage_class(&StorageSourceType::Gcs), "COLDLINE");
    assert_eq!(get_cold_storage_class(&StorageSourceType::AzureBlob), "Archive");
    assert_eq!(get_archive_storage_class(&StorageSourceType::S3), "STANDARD_IA");
    assert_eq!(get_archive_storage_class(&StorageSourceType::Gcs), "NEARLINE");
    assert_eq!(get_archive_storage_class(&StorageSourceType::AzureBlob), "Cool");
    assert_eq!(get_archive_storage_class(&StorageSourceType::Nas), "STANDARD_IA");
}

#[test]
fn provider_names() {
    assert_eq!(get_provider_name(&StorageSourceType::S3), "S3");
    assert_eq!(get_provider_name(&StorageSourceType::S3Compatible), "S3-Compatible");
    assert_eq!(get_provider_name(&StorageSourceType::Gcs), "GCS");
    assert_eq!(get_provider_name(&StorageSourceType::AzureBlob), "Azure Blob");
    assert_eq!(get_provider_name(&StorageSourceType::Custom("x".to_string())), "Object Storage");
}

#[test]
fn tier_classes_and_their_round_trip_through_s3() {
    let s3 = StorageSourceType::S3;
    assert_eq!(storage_class_for_tier(&s3, StorageTier::Hot), "STANDARD");
    assert_eq!(storage_class_for_tier(&s3, StorageTier::Archive), "STANDARD_IA");
    assert_eq!(storage_class_for_tier(&s3, StorageTier::InstantRetrieval), "GLACIER_IR");
    for tier in [
        StorageTier::Hot,
        StorageTier::Warm,
        StorageTier::Nearline,
        StorageTier::Cold,
        StorageTier::Archive,
        StorageTier::InstantRetrieval,
    ] {
        let back = S3StorageAdapter::detect_tier(Some(storage_class_for_tier(&s3, tier)));
        let expected = match tier {
            StorageTier::Cold | StorageTier::InstantRetrieval => StorageTier::Cold,
            _ => StorageTier::Nearline,
        };
        assert_eq!(back, expected);
    }
}

#[test]
fn temp_keys() {
    assert_eq!(tiering_temp_key("a/b.txt"), "a/b.txt.tiering");
}

use diaspor_vfs::factories::{AdapterPlan, FactoryError, StorageAdapterConfig, StorageAdapterFactoryImpl};

fn config(t: StorageSourceType, path: &str, region: Option<&str>, key: Option<&str>, endpoint: Option<&str>) -> StorageAdapterConfig {
    StorageAdapterConfig {
        adapter_type: t,
        path_or_bucket: path.to_string(),
        region: region.map(|s| s.to_string()),
        access_key: key.map(|s| s.to_string()),
        secret_key: None,
        endpoint: endpoint.map(|s| s.to_string()),
    }
}

#[test]
fn local_plans_are_named_after_their_folder() {
    let f = StorageAdapterFactoryImpl::new();
    match f.plan_adapter(&config(StorageSourceType::Local, "/home/me/media", None, None, None)) {
        Ok(AdapterPlan::Local { base_path, name }) => {
            assert_eq!(base_path, "/home/me/media");
            assert_eq!(name, "media");
        }
        other => panic!("unexpected {:?}", other),
    }
    match f.plan_adapter(&config(StorageSourceType::Local, "/", None, None, None)) {
        Ok(AdapterPlan::Local { name, .. }) => assert_eq!(name, "Local Storage"),
        other => panic!("unexpected {:?}", other),
    }
}

#[test]
fn s3_needs_a_region_and_azure_an_account() {
    let f = StorageAdapterFactoryImpl::new();
    assert!(matches!(
        f.plan_adapter(&config(StorageSourceType::S3, "bucket", None, None, None)),
        Err(FactoryError::MissingRegion)
    ));
    assert!(matches!(
        f.plan_adapter(&config(StorageSourceType::AzureBlob, "container", None, None, None)),
        Err(FactoryError::MissingAccountName)
    ));
    match f.plan_adapter(&config(StorageSourceType::S3, "bucket", Some("eu-west-1"), Some("AK"), None)) {
        Ok(AdapterPlan::S3 { bucket, region, access_key, name, .. }) => {
            assert_eq!(bucket, "bucket");
            assert_eq!(region, "eu-west-1");
            assert_eq!(access_key.as_deref(), Some("AK"));
            assert_eq!(name, "bucket");
        }
        other => panic!("unexpected {:?}", other),
    }
}

#[test]
fn compatible_stores_are_told_apart_by_endpoint() {
    let f = StorageAdapterFactoryImpl::new();
    let oracle = config(
        StorageSourceType::S3Compatible,
        "b",
        None,
        Some("key"),
        Some("https://mytenancy.compat.objectstorage.us-phoenix-1.oraclecloud.com"),
    );
    match f.plan_adapter(&oracle) {
        Ok(AdapterPlan::Oracle { namespace, region, .. }) => {
            assert_eq!(namespace, "mytenancy");
            assert_eq!(region, "us-ashburn-1");
        }
        other => panic!("unexpected {:?}", other),
    }
    let minio = config(StorageSourceType::S3Compatible, "b", Some("local"), None, Some("http://minio:9000"));
    match f.plan_adapter(&minio) {
        Ok(AdapterPlan::S3 { region, endpoint, .. }) => {
            assert_eq!(region, "local");
            assert_eq!(endpoint.as_deref(), Some("http://minio:9000"));
        }
        other => panic!("unexpected {:?}", other),
    }
}

#[test]
fn unsupported_kinds_are_refused() {
    let f = StorageAdapterFactoryImpl::new();
    assert!(matches!(f.plan_adapter(&config(StorageSourceType::Nas, "x", None, None, None)), Err(FactoryError::NasNeedsConfiguration)));
    assert!(matches!(
        f.plan_adapter(&config(StorageSourceType::Custom("ftp".to_string()), "x", None, None, None)),
        Err(FactoryError::CustomNotSupported)
    ));
    assert!(matches!(
        f.plan_adapter(&config(StorageSourceType::Smb, "x", None, None, None)),
        Err(FactoryError::NotImplemented(StorageSourceType::Smb))
    ));
    match f.plan_adapter(&config(StorageSourceType::FsxOntap, "/mnt/fsx/vol1", Some("api"), None, Some("ap"))) {
        Ok(AdapterPlan::FsxOntap { mount_point, name, s3_access_point, api_endpoint }) => {
            assert_eq!(mount_point, "/mnt/fsx/vol1");
            assert_eq!(name, "vol1");
            assert_eq!(s3_access_point.as_deref(), Some("ap"));
            assert_eq!(api_endpoint.as_deref(), Some("api"));
        }
        other => panic!("unexpected {:?}", other),
    }
}

#[test]
fn s3_plans_build_adapters() {
    let plan = AdapterPlan::S3 {
        bucket: " my-bucket ".to_string(),
        region: "EU-WEST-1".to_string(),
        access_key: None,
        secret_key: None,
        endpoint: None,
        name: "media".to_string(),
    };
    let adapter = StorageAdapterFactoryImpl::create_s3_adapter(plan).unwrap().unwrap();
    assert_eq!(adapter.bucket(), "my-bucket");
    assert_eq!(adapter.region(), "eu-west-1");
    assert_eq!(adapter.name(), "media");
    let local = AdapterPlan::Local { base_path: "/".to_string(), name: "n".to_string() };
    assert!(StorageAdapterFactoryImpl::create_s3_adapter(local).is_none());
}
