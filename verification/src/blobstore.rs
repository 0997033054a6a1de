//! Blob stores without a native directory listing (Azure Blob Storage and Oracle Object
//! Storage): their adapters, how their listings become directories and files, and whole-blob
//! rewrites.

use vstd::prelude::*;
use crate::domain::{StorageTier, VirtualFile};
use crate::paths::{join_path, joined, key_of, to_key};
use crate::s3::{is_transient, ObjectEntry, ExOperator, ExOpendalError};
use crate::text::{
    before_first, chars_of, contains, ends_with, find_char, has_prefix, lowercase, same_text,
    starts_with, string_of_range, to_lowercase, trim, trimmed,
};

verus! {

/// What an Azure Blob Storage operator is built from: the container, the account, its key
/// where given and a custom endpoint.
#[derive(Debug)]
pub struct AzureConfig {
    pub container: String,
    pub account_name: String,
    pub account_key: Option<String>,
    pub endpoint: Option<String>,
}

/// Builds an OpenDAL Azure Blob operator from a configuration: `Azblob::default`, then
/// `Azblob::container` and `Azblob::account_name`, then `Azblob::account_key` and
/// `Azblob::endpoint` for each of them that is given, then `Operator::new` and `finish`; the
/// configuration comes back with the operator. Whether the build succeeds depends on OpenDAL's
/// checks and its HTTP client, so nothing is stated of it.
#[verifier::external_body]
fn azblob_open(config: AzureConfig) -> (r: Result<(opendal::Operator, AzureConfig), opendal::Error>)
    ensures
        r matches Ok((_, c)) ==> c == config,
{
    let mut b = opendal::services::Azblob::default();
    b.container(&config.container);
    b.account_name(&config.account_name);
    if let Some(k) = &config.account_key { b.account_key(k); }
    if let Some(e) = &config.endpoint { b.endpoint(e); }
    opendal::Operator::new(b).map(|ob| (ob.finish(), config))
}

/// What the operator of an S3-compatible store is built from: the bucket, the region, the
/// endpoint and the credentials given.
#[derive(Debug)]
pub struct CompatConfig {
    pub bucket: String,
    pub region: String,
    pub endpoint: String,
    pub access_key: Option<String>,
    pub secret_key: Option<String>,
}

/// Builds an OpenDAL S3 operator for an S3-compatible store: `S3::default`, then `S3::bucket`,
/// `S3::region` and `S3::endpoint`, then `S3::access_key_id` and `S3::secret_access_key` for
/// each of them that is given, then `Operator::new` and `finish`; the configuration comes back
/// with the operator. Whether the build succeeds depends on OpenDAL's environment and HTTP
/// client, so nothing is stated of it.
#[verifier::external_body]
fn compat_open(config: CompatConfig) -> (r: Result<(opendal::Operator, CompatConfig), opendal::Error>)
    ensures
        r matches Ok((_, c)) ==> c == config,
{
    let mut b = opendal::services::S3::default();
    b.bucket(&config.bucket);
    b.region(&config.region);
    b.endpoint(&config.endpoint);
    if let Some(k) = &config.access_key { b.access_key_id(k); }
    if let Some(k) = &config.secret_key { b.secret_access_key(k); }
    opendal::Operator::new(b).map(|ob| (ob.finish(), config))
}

/// Why a blob store adapter could not be made.
#[derive(Debug)]
pub enum BlobStoreError {
    /// The container or bucket name is empty once trimmed.
    EmptyName,
    /// OpenDAL refused to build the operator.
    Backend(opendal::Error),
}

/// A listed item: whether it is a directory, its name, its path, and the entry it came from.
pub type BlobItem = (bool, Seq<char>, Seq<char>, int);

/// A listed name relative to the prefix (the whole name when it lies outside it).
pub open spec fn relative_name(name: Seq<char>, prefix: Seq<char>) -> Seq<char> {
    if prefix.len() != 0 && has_prefix(name, prefix) {
        name.subrange(prefix.len() as int, name.len() as int)
    } else {
        name
    }
}

/// The path of a directory seen under `key`.
pub open spec fn dir_path_of(key: Seq<char>, dir: Seq<char>) -> Seq<char> {
    if key.len() == 0 {
        seq!['/'] + dir
    } else {
        seq!['/'] + key + seq!['/'] + dir
    }
}

/// The path of a file seen under `key`.
pub open spec fn file_path_of(key: Seq<char>, rel: Seq<char>) -> Seq<char> {
    if key.len() == 0 {
        joined(seq!['/'], rel)
    } else {
        joined(joined(seq!['/'], key), rel)
    }
}

/// The items of a listing under `key` (listed with `prefix`): a name with a `/` below the
/// prefix stands for its first directory, listed once; other names are files; empty names and
/// unfinished uploads are left out.
pub open spec fn blob_items(entries: Seq<ObjectEntry>, prefix: Seq<char>, key: Seq<char>) -> Seq<BlobItem>
    decreases entries.len(),
{
    if entries.len() == 0 {
        Seq::empty()
    } else {
        let prev = blob_items(entries.drop_last(), prefix, key);
        let name = entries.last().name@;
        let rel = relative_name(name, prefix);
        let idx = entries.len() - 1;
        if rel.len() == 0 || is_transient(rel, name) {
            prev
        } else if rel.contains('/') {
            let dir = before_first(rel, '/');
            let path = dir_path_of(key, dir);
            if exists|k: int| 0 <= k < prev.len() && prev[k].0 && prev[k].2 == path {
                prev
            } else {
                prev.push((true, dir, path, idx))
            }
        } else {
            prev.push((false, rel, file_path_of(key, rel), idx))
        }
    }
}

/// Whether a listed file stands for an item of a blob listing.
pub open spec fn blob_listed_as(f: VirtualFile, item: BlobItem, e: ObjectEntry) -> bool {
    &&& f.is_directory == item.0
    &&& f.name@ == item.1
    &&& f.path@ == item.2
    &&& f.tier == StorageTier::Hot
    &&& !f.is_cached
    &&& f.retrieval_time_estimate is None
    &&& item.0 ==> f.size == 0 && f.modified is None && !f.can_warm
    &&& !item.0 ==> f.size == e.size && f.modified == e.modified && f.can_warm
}

/// Whether `files` is the listing of `entries`, in the order of the entries.
pub open spec fn blob_listing(files: Seq<VirtualFile>, entries: Seq<ObjectEntry>, prefix: Seq<char>, key: Seq<char>) -> bool {
    let items = blob_items(entries, prefix, key);
    &&& files.len() == items.len()
    &&& forall|k: int| 0 <= k < items.len() ==> 0 <= (#[trigger] items[k]).3 < entries.len() && blob_listed_as(files[k], items[k], entries[items[k].3])
}

fn dir_already_listed(out: &Vec<VirtualFile>, path: &str) -> (r: bool)
    ensures
        r == exists|k: int| 0 <= k < out@.len() && (#[trigger] out@[k]).is_directory && out@[k].path@ == path@,
{
    let mut i: usize = 0;
    while i < out.len()
        invariant
            i <= out@.len(),
            forall|k: int| 0 <= k < i ==> !((#[trigger] out@[k]).is_directory && out@[k].path@ == path@),
        decreases out.len() - i,
    {
        if out[i].is_directory && same_text(out[i].path.as_str(), path) {
            return true;
        }
        i = i + 1;
    }
    false
}

/// The listing of a directory of a blob store (see `blob_items`); `key` is the directory's
/// key and `prefix` what it was listed with.
pub fn blob_listing_from_entries(key: &str, prefix: &str, entries: &Vec<ObjectEntry>) -> (r: Vec<VirtualFile>)
    ensures
        blob_listing(r@, entries@, prefix@, key@),
{
    proof {
        reveal_strlit("/");
        assert("/"@ =~= seq!['/']);
    }
    let mut out: Vec<VirtualFile> = Vec::new();
    let mut i: usize = 0;
    while i < entries.len()
        invariant
            i <= entries@.len(),
            "/"@ == seq!['/'],
            blob_listing(out@, entries@.subrange(0, i as int), prefix@, key@),
        decreases entries.len() - i,
    {
        let e = &entries[i];
        let ghost pre = entries@.subrange(0, i as int);
        let ghost post = entries@.subrange(0, i + 1);
        proof {
            assert(post.drop_last() =~= pre);
            assert(post.last() == entries@[i as int]);
        }
        let name = e.name.as_str();
        let rel = if !prefix.is_empty() && starts_with(name, prefix) {
            match crate::text::strip_prefix(name, prefix) {
                Some(r) => r,
                None => String::from_str(name),
            }
        } else {
            String::from_str(name)
        };
        let r = rel.as_str();
        let skip = r.is_empty() || ends_with(r, ".part") || contains(r, ".part.") || contains(r, ".chunk.")
            || contains(r, ".tmp.") || ends_with(r, ".tmp") || contains(name, ".part") || contains(name, ".chunk.")
            || contains(name, ".tmp.");
        if !skip {
            let rv = chars_of(r);
            match find_char(rv.as_slice(), '/') {
                Some(j) => {
                    proof {
                        assert(rel@.contains('/')) by {
                            assert(rel@[j as int] == '/');
                        }
                        let s = rv@;
                        let m = choose|m: int| 0 <= m < s.len() && s[m] == '/' && forall|q: int| 0 <= q < m ==> s[q] != '/';
                        if m < j {
                            assert(s[m] != '/');
                        } else if m > j {
                            assert(s[j as int] != '/');
                        }
                    }
                    let dir = string_of_range(rv.as_slice(), 0, j);
                    let path = if key.is_empty() {
                        String::from_str("/").concat(dir.as_str())
                    } else {
                        String::from_str("/").concat(key).concat("/").concat(dir.as_str())
                    };
                    if !dir_already_listed(&out, path.as_str()) {
                        proof {
                            let prev = blob_items(pre, prefix@, key@);
                            assert(!(exists|k: int| 0 <= k < prev.len() && prev[k].0 && prev[k].2 == path@)) by {
                                assert forall|k: int| 0 <= k < prev.len() implies !(prev[k].0 && prev[k].2 == path@) by {
                                    assert(out@[k].is_directory == prev[k].0 && out@[k].path@ == prev[k].2);
                                }
                            }
                        }
                        out.push(VirtualFile {
                            name: dir,
                            path,
                            size: 0,
                            is_directory: true,
                            modified: None,
                            tier: StorageTier::Hot,
                            is_cached: false,
                            can_warm: false,
                            retrieval_time_estimate: None,
                        });
                    } else {
                        proof {
                            let prev = blob_items(pre, prefix@, key@);
                            let k = choose|k: int| 0 <= k < out@.len() && (#[trigger] out@[k]).is_directory && out@[k].path@ == path@;
                            assert(prev[k].0 && prev[k].2 == path@);
                        }
                    }
                },
                None => {
                    proof {
                        assert(!rel@.contains('/')) by {
                            if rel@.contains('/') {
                                let q = choose|q: int| 0 <= q < rel@.len() && rel@[q] == '/';
                                assert(rv@[q] == '/');
                            }
                        }
                    }
                    let path = if key.is_empty() {
                        join_path("/", r)
                    } else {
                        let base = join_path("/", key);
                        join_path(base.as_str(), r)
                    };
                    out.push(VirtualFile {
                        name: rel,
                        path,
                        size: e.size,
                        is_directory: false,
                        modified: e.modified,
                        tier: StorageTier::Hot,
                        is_cached: false,
                        can_warm: true,
                        retrieval_time_estimate: None,
                    });
                },
            }
        }
        i = i + 1;
        proof {
            let items = blob_items(post, prefix@, key@);
            assert forall|k: int| 0 <= k < items.len() implies 0 <= (#[trigger] items[k]).3 < post.len() && blob_listed_as(out@[k], items[k], post[items[k].3]) by {
                assert(post[items[k].3] == entries@[items[k].3]);
                if k < blob_items(pre, prefix@, key@).len() {
                    assert(pre[items[k].3] == entries@[items[k].3]);
                }
            }
        }
    }
    proof {
        assert(entries@.subrange(0, i as int) =~= entries@);
    }
    out
}

/// The object after writing `data` at `offset` inside it (these stores only overwrite within
/// the object).
pub fn write_within_bytes(existing: Vec<u8>, offset: u64, data: &[u8]) -> (r: Vec<u8>)
    requires
        offset + data@.len() <= existing@.len(),
    ensures
        r@ == crate::bytes::written_at(existing@, offset as int, data@),
        r@.len() == existing@.len(),
{
    let n = existing.len();
    assert(offset + data@.len() <= n);
    crate::bytes::write_at_bytes(existing, offset, data)
}

/// The keys deleted when a path is removed with everything under it: what was listed under
/// its key and a `/`, then the key, then the key and a `/`.
pub fn blob_removal_keys(path: &str, listed: Vec<String>) -> (r: Vec<String>)
    ensures
        r@.len() == listed@.len() + 2,
        forall|k: int| 0 <= k < listed@.len() ==> (#[trigger] r@[k])@ == listed@[k]@,
        r@[listed@.len() as int]@ == key_of(path@),
        r@[listed@.len() as int + 1]@ == key_of(path@).push('/'),
{
    let key = to_key(path);
    proof {
        reveal_strlit("/");
    }
    let marker = key.clone().concat("/");
    assert(marker@ =~= key@.push('/'));
    let mut out = listed;
    let ghost before = out@;
    out.push(key);
    out.push(marker);
    proof {
        assert forall|k: int| 0 <= k < before.len() implies (#[trigger] out@[k])@ == before[k]@ by {
            assert(out@[k] == before[k]);
        }
    }
    out
}

/// An Azure Blob Storage container seen as a storage source.
pub struct AzureBlobStorageAdapter {
    operator: opendal::Operator,
    config: AzureConfig,
    container: String,
    name: String,
    account_name: String,
}

impl AzureBlobStorageAdapter {
    /// The OpenDAL operator the adapter holds.
    pub closed spec fn op(&self) -> opendal::Operator {
        self.operator
    }

    /// What the operator was built from.
    pub closed spec fn config(&self) -> AzureConfig {
        self.config
    }

    /// The (trimmed) container name.
    pub closed spec fn container_name(&self) -> Seq<char> {
        self.container@
    }

    /// The display name.
    pub closed spec fn display_name(&self) -> Seq<char> {
        self.name@
    }

    /// The storage account.
    pub closed spec fn account(&self) -> Seq<char> {
        self.account_name@
    }

    /// Makes an adapter for a container of an account; the container name is trimmed and may
    /// not be empty; the account key (found by the caller where not given) and endpoint are
    /// handed to OpenDAL.
    pub fn new(container: String, account_name: String, account_key: Option<String>, endpoint: Option<String>, name: String) -> (r: Result<Self, BlobStoreError>)
        ensures
            trimmed(container@).len() == 0 ==> r matches Err(BlobStoreError::EmptyName),
            trimmed(container@).len() != 0 ==> (r is Ok || r matches Err(BlobStoreError::Backend(_))),
            r matches Ok(a) ==> a.container_name() == trimmed(container@) && a.account() == account_name@ && a.display_name() == name@,
            r matches Ok(a) ==> {
                &&& a.config().container@ == trimmed(container@)
                &&& a.config().account_name == account_name
                &&& a.config().account_key == account_key
                &&& a.config().endpoint == endpoint
            },
    {
        let c = trim(container.as_str());
        if c.as_str().is_empty() {
            return Err(BlobStoreError::EmptyName);
        }
        let config = AzureConfig {
            container: c.clone(),
            account_name: account_name.clone(),
            account_key,
            endpoint,
        };
        match azblob_open(config) {
            Ok((operator, config)) => Ok(AzureBlobStorageAdapter { operator, config, container: c, name, account_name }),
            Err(e) => Err(BlobStoreError::Backend(e)),
        }
    }

    /// The OpenDAL operator behind the adapter.
    pub fn operator(&self) -> (r: &opendal::Operator)
        ensures
            *r == self.op(),
    {
        &self.operator
    }

    /// The display name.
    pub fn name(&self) -> (r: &str)
        ensures
            r@ == self.display_name(),
    {
        self.name.as_str()
    }
}

/// The S3-compatible endpoint of an Oracle tenancy namespace in a region.
pub open spec fn oracle_endpoint(namespace: Seq<char>, region: Seq<char>) -> Seq<char> {
    "https://"@ + namespace + ".compat.objectstorage."@ + region + ".oraclecloud.com"@
}

/// An Oracle Object Storage bucket seen as a storage source.
pub struct OracleObjectStorageAdapter {
    operator: opendal::Operator,
    config: CompatConfig,
    bucket: String,
    name: String,
    namespace: String,
    region: String,
    endpoint: String,
}

impl OracleObjectStorageAdapter {
    /// The OpenDAL operator the adapter holds.
    pub closed spec fn op(&self) -> opendal::Operator {
        self.operator
    }

    /// What the operator was built from.
    pub closed spec fn config(&self) -> CompatConfig {
        self.config
    }

    /// The (trimmed) bucket.
    pub closed spec fn bucket_name(&self) -> Seq<char> {
        self.bucket@
    }

    /// The (lower-cased) region.
    pub closed spec fn region_name(&self) -> Seq<char> {
        self.region@
    }

    /// The endpoint the operator talks to.
    pub closed spec fn endpoint_url(&self) -> Seq<char> {
        self.endpoint@
    }

    /// The display name.
    pub closed spec fn display_name(&self) -> Seq<char> {
        self.name@
    }

    /// Makes an adapter for a bucket of a tenancy: the bucket name is trimmed and may not be
    /// empty, the region is lower-cased, and the endpoint is the given one or the tenancy's
    /// S3-compatible endpoint in that region.
    pub fn new(
        bucket: String,
        namespace: String,
        region: String,
        access_key: Option<String>,
        secret_key: Option<String>,
        endpoint: Option<String>,
        name: String,
    ) -> (r: Result<Self, BlobStoreError>)
        ensures
            trimmed(bucket@).len() == 0 ==> r matches Err(BlobStoreError::EmptyName),
            trimmed(bucket@).len() != 0 ==> (r is Ok || r matches Err(BlobStoreError::Backend(_))),
            r matches Ok(a) ==> {
                &&& a.bucket_name() == trimmed(bucket@)
                &&& a.region_name() == lowercase(region@)
                &&& a.display_name() == name@
                &&& a.endpoint_url() == match endpoint {
                    Some(e) => e@,
                    None => oracle_endpoint(namespace@, lowercase(region@)),
                }
                &&& a.config().bucket@ == trimmed(bucket@)
                &&& a.config().region@ == lowercase(region@)
                &&& a.config().endpoint@ == a.endpoint_url()
                &&& a.config().access_key == access_key
                &&& a.config().secret_key == secret_key
            },
    {
        let b = trim(bucket.as_str());
        if b.as_str().is_empty() {
            return Err(BlobStoreError::EmptyName);
        }
        let region_l = to_lowercase(region.as_str());
        let ep = match endpoint {
            Some(e) => e,
            None => String::from_str("https://").concat(namespace.as_str()).concat(".compat.objectstorage.").concat(
                region_l.as_str(),
            ).concat(".oraclecloud.com"),
        };
        let config = CompatConfig {
            bucket: b.clone(),
            region: region_l.clone(),
            endpoint: ep.clone(),
            access_key,
            secret_key,
        };
        match compat_open(config) {
            Ok((operator, config)) => Ok(OracleObjectStorageAdapter { operator, config, bucket: b, name, namespace, region: region_l, endpoint: ep }),
            Err(e) => Err(BlobStoreError::Backend(e)),
        }
    }

    /// The OpenDAL operator behind the adapter.
    pub fn operator(&self) -> (r: &opendal::Operator)
        ensures
            *r == self.op(),
    {
        &self.operator
    }

    /// The display name.
    pub fn name(&self) -> (r: &str)
        ensures
            r@ == self.display_name(),
    {
        self.name.as_str()
    }
}

} // verus!
