//! Choosing and configuring the adapter for a storage source from its configuration.

use vstd::prelude::*;
use crate::domain::StorageSourceType;
use crate::paths::{file_name, file_name_of};
use crate::s3::{S3Error, S3StorageAdapter};
use crate::text::{contains, contains_seq, before_first, has_prefix, strip_prefix, chars_of, find_char, string_of_range};

verus! {

/// What the configuration of a storage source holds.
#[derive(Clone, Debug)]
pub struct StorageAdapterConfig {
    pub adapter_type: StorageSourceType,
    /// A local path or mount point, or a bucket or container name.
    pub path_or_bucket: String,
    /// The region; Azure keeps the account name here and FSx ONTAP its API endpoint.
    pub region: Option<String>,
    /// The access key; GCS keeps its credentials path here and Oracle may keep its namespace.
    pub access_key: Option<String>,
    pub secret_key: Option<String>,
    pub endpoint: Option<String>,
}

/// The adapter to build, with its arguments.
#[derive(Debug)]
pub enum AdapterPlan {
    Local { base_path: String, name: String },
    S3 {
        bucket: String,
        region: String,
        access_key: Option<String>,
        secret_key: Option<String>,
        endpoint: Option<String>,
        name: String,
    },
    Gcs { bucket: String, credentials_path: Option<String>, name: String },
    AzureBlob {
        container: String,
        account_name: String,
        account_key: Option<String>,
        endpoint: Option<String>,
        name: String,
    },
    Oracle {
        bucket: String,
        namespace: String,
        region: String,
        access_key: Option<String>,
        secret_key: Option<String>,
        endpoint: Option<String>,
        name: String,
    },
    FsxOntap {
        mount_point: String,
        name: String,
        s3_access_point: Option<String>,
        api_endpoint: Option<String>,
    },
}

/// Why no adapter can be built for a configuration.
#[derive(Clone, Debug)]
pub enum FactoryError {
    /// S3 needs a region.
    MissingRegion,
    /// Azure Blob Storage needs the account name (kept in the region field).
    MissingAccountName,
    /// NAS sources need configuration that this one does not hold.
    NasNeedsConfiguration,
    /// Custom sources have no adapter.
    CustomNotSupported,
    /// No adapter exists yet for this kind of source.
    NotImplemented(StorageSourceType),
}

/// The views of an optional string.
pub open spec fn opt_view(o: Option<String>) -> Option<Seq<char>> {
    match o {
        Some(s) => Some(s@),
        None => None,
    }
}

/// The region used for S3-compatible stores when none is given (Oracle's Ashburn region).
pub open spec fn default_compatible_region(region: Option<String>) -> Seq<char> {
    match region {
        Some(r) => r@,
        None => "us-ashburn-1"@,
    }
}

/// Whether an S3-compatible endpoint is Oracle's.
pub open spec fn is_oracle_endpoint(endpoint: Option<String>) -> bool {
    match endpoint {
        Some(e) => contains_seq(e@, "oraclecloud.com"@),
        None => false,
    }
}

/// The Oracle namespace: the first label of an `https://` endpoint, else the access key,
/// else `default`.
pub open spec fn oracle_namespace(endpoint: Option<String>, access_key: Option<String>) -> Seq<char> {
    match endpoint {
        Some(e) if has_prefix(e@, "https://"@) => before_first(
            e@.subrange("https://"@.len() as int, e@.len() as int),
            '.',
        ),
        _ => match access_key {
            Some(k) => k@,
            None => "default"@,
        },
    }
}

/// The display name of a local or mounted source: the last component of its path, or the
/// given fallback.
pub open spec fn mount_name(path: Seq<char>, fallback: Seq<char>) -> Seq<char> {
    match file_name_of(path) {
        Some(n) => n,
        None => fallback,
    }
}

/// The Oracle namespace (see `oracle_namespace`).
fn namespace_of(endpoint: &Option<String>, access_key: &Option<String>) -> (r: String)
    ensures
        r@ == oracle_namespace(*endpoint, *access_key),
{
    match endpoint {
        Some(e) => match strip_prefix(e.as_str(), "https://") {
            Some(rest) => {
                let v = chars_of(rest.as_str());
                return match find_char(v.as_slice(), '.') {
                    Some(i) => {
                        proof {
                            let s = v@;
                            let k = choose|k: int| 0 <= k < s.len() && s[k] == '.' && forall|j: int| 0 <= j < k ==> s[j] != '.';
                            if k < i {
                                assert(s[k] != '.');
                            } else if k > i {
                                assert(s[i as int] != '.');
                            }
                        }
                        string_of_range(v.as_slice(), 0, i)
                    },
                    None => {
                        assert(v@.subrange(0, v@.len() as int) =~= v@);
                        string_of_range(v.as_slice(), 0, v.len())
                    },
                };
            },
            None => {},
        },
        None => {},
    }
    match access_key {
        Some(k) => k.clone(),
        None => String::from_str("default"),
    }
}

/// The display name of a mounted path (see `mount_name`).
fn name_of_mount(path: &str, fallback: &str) -> (r: String)
    ensures
        r@ == mount_name(path@, fallback@),
{
    match file_name(path) {
        Some(n) => n,
        None => String::from_str(fallback),
    }
}

/// Clones an optional string.
fn clone_opt(o: &Option<String>) -> (r: Option<String>)
    ensures
        opt_view(r) == opt_view(*o),
{
    match o {
        Some(s) => Some(s.clone()),
        None => None,
    }
}

/// Builds storage adapters from configuration.
pub struct StorageAdapterFactoryImpl;

impl StorageAdapterFactoryImpl {
    pub fn new() -> (r: Self) {
        StorageAdapterFactoryImpl
    }

    /// Chooses the adapter for a configuration and its arguments.
    pub fn plan_adapter(&self, config: &StorageAdapterConfig) -> (r: Result<AdapterPlan, FactoryError>)
        ensures
            match config.adapter_type {
                StorageSourceType::Local => r matches Ok(AdapterPlan::Local { base_path, name })
                    && base_path@ == config.path_or_bucket@ && name@ == mount_name(
                    config.path_or_bucket@,
                    "Local Storage"@,
                ),
                StorageSourceType::S3 => match config.region {
                    None => r matches Err(FactoryError::MissingRegion),
                    Some(reg) => r matches Ok(
                        AdapterPlan::S3 { bucket, region, access_key, secret_key, endpoint, name },
                    ) && bucket@ == config.path_or_bucket@ && region@ == reg@ && opt_view(access_key)
                        == opt_view(config.access_key) && opt_view(secret_key) == opt_view(
                        config.secret_key,
                    ) && opt_view(endpoint) == opt_view(config.endpoint) && name@
                        == config.path_or_bucket@,
                },
                StorageSourceType::Gcs => r matches Ok(AdapterPlan::Gcs { bucket, credentials_path, name })
                    && bucket@ == config.path_or_bucket@ && opt_view(credentials_path) == opt_view(
                    config.access_key,
                ) && name@ == config.path_or_bucket@,
                StorageSourceType::AzureBlob => match config.region {
                    None => r matches Err(FactoryError::MissingAccountName),
                    Some(acct) => r matches Ok(
                        AdapterPlan::AzureBlob { container, account_name, account_key, endpoint, name },
                    ) && container@ == config.path_or_bucket@ && account_name@ == acct@ && opt_view(
                        account_key,
                    ) == opt_view(config.access_key) && opt_view(endpoint) == opt_view(
                        config.endpoint,
                    ) && name@ == config.path_or_bucket@,
                },
                StorageSourceType::S3Compatible => if is_oracle_endpoint(config.endpoint) {
                    r matches Ok(
                        AdapterPlan::Oracle {
                            bucket,
                            namespace,
                            region,
                            access_key,
                            secret_key,
                            endpoint,
                            name,
                        },
                    ) && bucket@ == config.path_or_bucket@ && namespace@ == oracle_namespace(
                        config.endpoint,
                        config.access_key,
                    ) && region@ == default_compatible_region(config.region) && opt_view(access_key)
                        == opt_view(config.access_key) && opt_view(secret_key) == opt_view(
                        config.secret_key,
                    ) && opt_view(endpoint) == opt_view(config.endpoint) && name@
                        == config.path_or_bucket@
                } else {
                    r matches Ok(
                        AdapterPlan::S3 { bucket, region, access_key, secret_key, endpoint, name },
                    ) && bucket@ == config.path_or_bucket@ && region@ == default_compatible_region(
                        config.region,
                    ) && opt_view(access_key) == opt_view(config.access_key) && opt_view(
                        secret_key,
                    ) == opt_view(config.secret_key) && opt_view(endpoint) == opt_view(
                        config.endpoint,
                    ) && name@ == config.path_or_bucket@
                },
                StorageSourceType::Nas => r matches Err(FactoryError::NasNeedsConfiguration),
                StorageSourceType::FsxOntap => r matches Ok(
                    AdapterPlan::FsxOntap { mount_point, name, s3_access_point, api_endpoint },
                ) && mount_point@ == config.path_or_bucket@ && name@ == mount_name(
                    config.path_or_bucket@,
                    "FSx ONTAP"@,
                ) && opt_view(s3_access_point) == opt_view(config.endpoint) && opt_view(
                    api_endpoint,
                ) == opt_view(config.region),
                StorageSourceType::Custom(_) => r matches Err(FactoryError::CustomNotSupported),
                _ => r matches Err(FactoryError::NotImplemented(t)) && t == config.adapter_type,
            },
    {
        let bucket = config.path_or_bucket.clone();
        match &config.adapter_type {
            StorageSourceType::Local => {
                let name = name_of_mount(config.path_or_bucket.as_str(), "Local Storage");
                Ok(AdapterPlan::Local { base_path: bucket, name })
            },
            StorageSourceType::S3 => match &config.region {
                None => Err(FactoryError::MissingRegion),
                Some(reg) => Ok(
                    AdapterPlan::S3 {
                        bucket,
                        region: reg.clone(),
                        access_key: clone_opt(&config.access_key),
                        secret_key: clone_opt(&config.secret_key),
                        endpoint: clone_opt(&config.endpoint),
                        name: config.path_or_bucket.clone(),
                    },
                ),
            },
            StorageSourceType::Gcs => Ok(
                AdapterPlan::Gcs {
                    bucket,
                    credentials_path: clone_opt(&config.access_key),
                    name: config.path_or_bucket.clone(),
                },
            ),
            StorageSourceType::AzureBlob => match &config.region {
                None => Err(FactoryError::MissingAccountName),
                Some(acct) => Ok(
                    AdapterPlan::AzureBlob {
                        container: bucket,
                        account_name: acct.clone(),
                        account_key: clone_opt(&config.access_key),
                        endpoint: clone_opt(&config.endpoint),
                        name: config.path_or_bucket.clone(),
                    },
                ),
            },
            StorageSourceType::S3Compatible => {
                let region = match &config.region {
                    Some(r) => r.clone(),
                    None => String::from_str("us-ashburn-1"),
                };
                let is_oracle = match &config.endpoint {
                    Some(e) => contains(e.as_str(), "oraclecloud.com"),
                    None => false,
                };
                if is_oracle {
                    Ok(
                        AdapterPlan::Oracle {
                            bucket,
                            namespace: namespace_of(&config.endpoint, &config.access_key),
                            region,
                            access_key: clone_opt(&config.access_key),
                            secret_key: clone_opt(&config.secret_key),
                            endpoint: clone_opt(&config.endpoint),
                            name: config.path_or_bucket.clone(),
                        },
                    )
                } else {
                    Ok(
                        AdapterPlan::S3 {
                            bucket,
                            region,
                            access_key: clone_opt(&config.access_key),
                            secret_key: clone_opt(&config.secret_key),
                            endpoint: clone_opt(&config.endpoint),
                            name: config.path_or_bucket.clone(),
                        },
                    )
                }
            },
            StorageSourceType::Nas => Err(FactoryError::NasNeedsConfiguration),
            StorageSourceType::FsxOntap => Ok(
                AdapterPlan::FsxOntap {
                    mount_point: bucket,
                    name: name_of_mount(config.path_or_bucket.as_str(), "FSx ONTAP"),
                    s3_access_point: clone_opt(&config.endpoint),
                    api_endpoint: clone_opt(&config.region),
                },
            ),
            StorageSourceType::Custom(_) => Err(FactoryError::CustomNotSupported),
            StorageSourceType::FsxN => Err(FactoryError::NotImplemented(StorageSourceType::FsxN)),
            StorageSourceType::Block => Err(FactoryError::NotImplemented(StorageSourceType::Block)),
            StorageSourceType::Smb => Err(FactoryError::NotImplemented(StorageSourceType::Smb)),
            StorageSourceType::Nfs => Err(FactoryError::NotImplemented(StorageSourceType::Nfs)),
            StorageSourceType::Sftp => Err(FactoryError::NotImplemented(StorageSourceType::Sftp)),
            StorageSourceType::WebDav => Err(FactoryError::NotImplemented(StorageSourceType::WebDav)),
        }
    }

    /// Builds the S3 adapter of a plan (session tokens are not part of the configuration).
    pub fn create_s3_adapter(plan: AdapterPlan) -> (r: Option<Result<S3StorageAdapter, S3Error>>)
        ensures
            r is Some <==> plan is S3,
            plan matches AdapterPlan::S3 { bucket, region, name, .. } ==> (r matches Some(Ok(a))
                ==> a.bucket_name() == crate::text::trimmed(bucket@) && a.region_name()
                == crate::text::lowercase(region@) && a.display_name() == name@),
            plan matches AdapterPlan::S3 { bucket, region, access_key, secret_key, endpoint, .. } ==> (
            r matches Some(Ok(a)) ==> {
                &&& a.config().bucket@ == crate::text::trimmed(bucket@)
                &&& a.config().region@ == crate::text::lowercase(region@)
                &&& a.config().access_key == access_key
                &&& a.config().secret_key == secret_key
                &&& a.config().session_token is None
                &&& a.config().endpoint == endpoint
            }),
            plan matches AdapterPlan::S3 { bucket, .. } ==> (crate::s3::bucket_problem(bucket@) is Some
                ==> r matches Some(Err(_))),
    {
        match plan {
            AdapterPlan::S3 { bucket, region, access_key, secret_key, endpoint, name } => Some(
                S3StorageAdapter::new(bucket, region, access_key, secret_key, None, endpoint, name),
            ),
            _ => None,
        }
    }
}

/// Builds cache adapters.
pub struct CacheAdapterFactoryImpl;

impl CacheAdapterFactoryImpl {
    pub fn new() -> (r: Self) {
        CacheAdapterFactoryImpl
    }
}

/// Builds clipboard adapters.
pub struct ClipboardAdapterFactoryImpl;

impl ClipboardAdapterFactoryImpl {
    pub fn new() -> (r: Self) {
        ClipboardAdapterFactoryImpl
    }
}

} // verus!
