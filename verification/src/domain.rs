//! The storage vocabulary shared by the adapters: kinds of source, tiers, listed files.

use vstd::prelude::*;

verus! {

/// The kind of storage behind a virtual filesystem source.
#[derive(Clone, PartialEq, Eq, Debug)]
pub enum StorageSourceType {
    Local,
    S3,
    S3Compatible,
    Gcs,
    AzureBlob,
    Nas,
    FsxOntap,
    FsxN,
    Block,
    Smb,
    Nfs,
    Sftp,
    WebDav,
    Custom(String),
}

/// Whether two kinds of source are the same kind (a custom kind by its name).
pub open spec fn same_kind(a: StorageSourceType, b: StorageSourceType) -> bool {
    match (a, b) {
        (StorageSourceType::Custom(x), StorageSourceType::Custom(y)) => x@ == y@,
        (StorageSourceType::Custom(_), _) => false,
        (_, StorageSourceType::Custom(_)) => false,
        _ => a == b,
    }
}

impl StorageSourceType {
    /// A copy of the kind.
    pub fn duplicate(&self) -> (r: Self)
        ensures
            same_kind(r, *self),
    {
        match self {
            StorageSourceType::Local => StorageSourceType::Local,
            StorageSourceType::S3 => StorageSourceType::S3,
            StorageSourceType::S3Compatible => StorageSourceType::S3Compatible,
            StorageSourceType::Gcs => StorageSourceType::Gcs,
            StorageSourceType::AzureBlob => StorageSourceType::AzureBlob,
            StorageSourceType::Nas => StorageSourceType::Nas,
            StorageSourceType::FsxOntap => StorageSourceType::FsxOntap,
            StorageSourceType::FsxN => StorageSourceType::FsxN,
            StorageSourceType::Block => StorageSourceType::Block,
            StorageSourceType::Smb => StorageSourceType::Smb,
            StorageSourceType::Nfs => StorageSourceType::Nfs,
            StorageSourceType::Sftp => StorageSourceType::Sftp,
            StorageSourceType::WebDav => StorageSourceType::WebDav,
            StorageSourceType::Custom(n) => StorageSourceType::Custom(n.clone()),
        }
    }
}

/// The tier a file lives in, from fastest to cheapest.
#[derive(Clone, Copy, PartialEq, Eq, Debug, Structural)]
pub enum StorageTier {
    Hot,
    Warm,
    Nearline,
    Cold,
    Archive,
    InstantRetrieval,
}

/// A file or directory as a storage adapter lists it.
#[derive(Clone, Debug)]
pub struct VirtualFile {
    /// The last component of the path.
    pub name: String,
    /// The path inside the source.
    pub path: String,
    /// Size in bytes (zero for directories on object stores).
    pub size: u64,
    pub is_directory: bool,
    /// Seconds since the Unix epoch, where the store reports it.
    pub modified: Option<i64>,
    /// The tier the file currently lives in.
    pub tier: StorageTier,
    pub is_cached: bool,
    pub can_warm: bool,
    /// Seconds until the content can be read, where known.
    pub retrieval_time_estimate: Option<u64>,
}

} // verus!
