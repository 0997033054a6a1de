//! The registry of storage sources the virtual filesystem serves, and the decisions the
//! service takes on it: which sources may receive a transfer, where a file of a mounted source
//! lies on disk, which listed files the cache already holds.

use vstd::prelude::*;
use crate::domain::{same_kind, StorageSourceType, StorageTier, VirtualFile};
use crate::keyed::{
    find_keyed, keys_unique, lemma_find_at, lemma_find_index, lemma_push_keyed,
    lemma_remove_keyed, lemma_set_keyed,
};
use crate::local::{is_under_base, under_base};
use crate::models::{copy_opt, opt_chars};
use crate::paths::{file_name, file_name_of, join_path, joined};
use crate::text::{same_text, trim_end_by, trim_end_class, trim_start_by, trim_start_class, CharClass};

verus! {

/// Where a source stands with its backend.
#[derive(Debug)]
pub enum ConnectionStatus {
    Connected,
    Disconnected,
    Connecting,
    Error(String),
}

/// Whether two statuses say the same (an error by its message).
pub open spec fn same_status(a: ConnectionStatus, b: ConnectionStatus) -> bool {
    match (a, b) {
        (ConnectionStatus::Error(x), ConnectionStatus::Error(y)) => x@ == y@,
        (ConnectionStatus::Error(_), _) => false,
        (_, ConnectionStatus::Error(_)) => false,
        _ => a == b,
    }
}

impl ConnectionStatus {
    /// A copy of the status.
    pub fn duplicate(&self) -> (r: Self)
        ensures
            same_status(r, *self),
    {
        match self {
            ConnectionStatus::Connected => ConnectionStatus::Connected,
            ConnectionStatus::Disconnected => ConnectionStatus::Disconnected,
            ConnectionStatus::Connecting => ConnectionStatus::Connecting,
            ConnectionStatus::Error(m) => ConnectionStatus::Error(m.clone()),
        }
    }

    /// Whether the source is connected.
    pub fn is_connected(&self) -> (r: bool)
        ensures
            r == (*self is Connected),
    {
        match self {
            ConnectionStatus::Connected => true,
            _ => false,
        }
    }
}

/// The broad family a kind of storage belongs to.
#[derive(Clone, Copy, PartialEq, Eq, Debug, Structural)]
pub enum StorageCategory {
    Local,
    Block,
    Cloud,
    Network,
    Hybrid,
    Custom,
}

/// The tier a file is read from when it is brought into the cache: local and block storage
/// are hot, network storage warm, everything else cold.
pub open spec fn category_tier(c: StorageCategory) -> StorageTier {
    match c {
        StorageCategory::Local => StorageTier::Hot,
        StorageCategory::Block => StorageTier::Hot,
        StorageCategory::Cloud => StorageTier::Cold,
        StorageCategory::Network => StorageTier::Warm,
        StorageCategory::Hybrid => StorageTier::Cold,
        StorageCategory::Custom => StorageTier::Cold,
    }
}

/// The tier a file of a source of category `c` is hydrated from (see `category_tier`).
pub fn hydration_source_tier(c: StorageCategory) -> (t: StorageTier)
    ensures
        t == category_tier(c),
{
    match c {
        StorageCategory::Local => StorageTier::Hot,
        StorageCategory::Block => StorageTier::Hot,
        StorageCategory::Cloud => StorageTier::Cold,
        StorageCategory::Network => StorageTier::Warm,
        StorageCategory::Hybrid => StorageTier::Cold,
        StorageCategory::Custom => StorageTier::Cold,
    }
}

/// How a source reaches its storage.
#[derive(Debug)]
pub struct StorageConfig {
    /// The folder of a local source, the bucket of an object store.
    pub path_or_bucket: String,
    pub region: Option<String>,
    pub endpoint: Option<String>,
    pub access_key: Option<String>,
    pub secret_key: Option<String>,
    pub session_token: Option<String>,
}

/// Whether two configurations say the same.
pub open spec fn same_config(a: StorageConfig, b: StorageConfig) -> bool {
    &&& a.path_or_bucket@ == b.path_or_bucket@
    &&& opt_chars(a.region) == opt_chars(b.region)
    &&& opt_chars(a.endpoint) == opt_chars(b.endpoint)
    &&& opt_chars(a.access_key) == opt_chars(b.access_key)
    &&& opt_chars(a.secret_key) == opt_chars(b.secret_key)
    &&& opt_chars(a.session_token) == opt_chars(b.session_token)
}

impl StorageConfig {
    /// A copy of the configuration.
    pub fn duplicate(&self) -> (r: Self)
        ensures
            same_config(r, *self),
    {
        StorageConfig {
            path_or_bucket: self.path_or_bucket.clone(),
            region: copy_opt(&self.region),
            endpoint: copy_opt(&self.endpoint),
            access_key: copy_opt(&self.access_key),
            secret_key: copy_opt(&self.secret_key),
            session_token: copy_opt(&self.session_token),
        }
    }
}

/// A storage source registered with the virtual filesystem.
#[derive(Debug)]
pub struct StorageSource {
    pub id: String,
    pub name: String,
    pub source_type: StorageSourceType,
    pub status: ConnectionStatus,
    pub mounted: bool,
    /// The folder a local source is mounted at.
    pub mount_point: Option<String>,
    pub config: StorageConfig,
}

/// Whether two records say the same of a source.
pub open spec fn same_source(a: StorageSource, b: StorageSource) -> bool {
    &&& a.id@ == b.id@
    &&& a.name@ == b.name@
    &&& same_kind(a.source_type, b.source_type)
    &&& same_status(a.status, b.status)
    &&& a.mounted == b.mounted
    &&& opt_chars(a.mount_point) == opt_chars(b.mount_point)
    &&& same_config(a.config, b.config)
}

impl StorageSource {
    /// A copy of the record.
    pub fn duplicate(&self) -> (r: Self)
        ensures
            same_source(r, *self),
    {
        StorageSource {
            id: self.id.clone(),
            name: self.name.clone(),
            source_type: self.source_type.duplicate(),
            status: self.status.duplicate(),
            mounted: self.mounted,
            mount_point: copy_opt(&self.mount_point),
            config: self.config.duplicate(),
        }
    }
}

/// The record of a local folder registered under `id`: connected, mounted at the folder.
pub fn local_source(id: String, name: String, path: String) -> (r: StorageSource)
    ensures
        r.id == id,
        r.name == name,
        r.source_type == StorageSourceType::Local,
        r.status is Connected,
        r.mounted,
        r.mount_point matches Some(m) && m@ == path@,
        r.config.path_or_bucket@ == path@,
        r.config.region is None,
        r.config.endpoint is None,
        r.config.access_key is None,
        r.config.secret_key is None,
        r.config.session_token is None,
{
    let folder = path.clone();
    StorageSource {
        id,
        name,
        source_type: StorageSourceType::Local,
        status: ConnectionStatus::Connected,
        mounted: true,
        mount_point: Some(path),
        config: StorageConfig {
            path_or_bucket: folder,
            region: None,
            endpoint: None,
            access_key: None,
            secret_key: None,
            session_token: None,
        },
    }
}

/// The status an S3 source gets from its connection test: `Ok(true)` connects it; `Ok(false)`
/// and a failed test are errors whose message names the bucket (and, for a failed test, the
/// test's message and the region).
pub open spec fn probe_status_message(
    probe: Result<bool, Seq<char>>,
    bucket: Seq<char>,
    region: Seq<char>,
) -> Option<Seq<char>> {
    match probe {
        Ok(true) => None,
        Ok(false) => Some(
            "Connection test failed: Bucket '"@ + bucket
                + "' is not accessible. Verify credentials and bucket permissions."@,
        ),
        Err(e) => Some(
            "Connection test error: "@ + e + ". Verify bucket name '"@ + bucket + "', region '"@
                + region + "', and credentials are correct."@,
        ),
    }
}

/// The view of a connection test's outcome.
pub open spec fn probe_view(probe: Result<bool, String>) -> Result<bool, Seq<char>> {
    match probe {
        Ok(b) => Ok(b),
        Err(e) => Err(e@),
    }
}

/// The record of an S3 bucket registered under `id`, given how its connection test went:
/// mounted exactly when connected, with no mount point, and with no credentials kept in it.
pub fn s3_source(
    id: String,
    name: String,
    bucket: String,
    region: String,
    endpoint: Option<String>,
    probe: Result<bool, String>,
) -> (r: StorageSource)
    ensures
        r.id == id,
        r.name == name,
        r.source_type == StorageSourceType::S3,
        match probe_status_message(probe_view(probe), bucket@, region@) {
            None => r.status is Connected,
            Some(m) => r.status matches ConnectionStatus::Error(e) && e@ == m,
        },
        r.mounted == (r.status is Connected),
        r.mount_point is None,
        r.config.path_or_bucket@ == bucket@,
        r.config.region matches Some(g) && g@ == region@,
        opt_chars(r.config.endpoint) == opt_chars(endpoint),
        r.config.access_key is None,
        r.config.secret_key is None,
        r.config.session_token is None,
{
    let status = match probe {
        Ok(true) => ConnectionStatus::Connected,
        Ok(false) => {
            let m = "Connection test failed: Bucket '".to_string();
            let m = m.concat(bucket.as_str());
            let m = m.concat("' is not accessible. Verify credentials and bucket permissions.");
            ConnectionStatus::Error(m)
        },
        Err(e) => {
            let m = "Connection test error: ".to_string();
            let m = m.concat(e.as_str());
            let m = m.concat(". Verify bucket name '");
            let m = m.concat(bucket.as_str());
            let m = m.concat("', region '");
            let m = m.concat(region.as_str());
            let m = m.concat("', and credentials are correct.");
            ConnectionStatus::Error(m)
        },
    };
    let connected = status.is_connected();
    StorageSource {
        id,
        name,
        source_type: StorageSourceType::S3,
        status,
        mounted: connected,
        mount_point: None,
        config: StorageConfig {
            path_or_bucket: bucket,
            region: Some(region),
            endpoint,
            access_key: None,
            secret_key: None,
            session_token: None,
        },
    }
}

/// The key a source is registered under: its id.
pub open spec fn source_key() -> spec_fn(StorageSource) -> Seq<char> {
    |s: StorageSource| s.id@
}

/// Why the registry refused a request.
#[derive(Clone, Copy, PartialEq, Eq, Debug, Structural)]
pub enum SourceError {
    /// No source has the id.
    NotFound,
    /// The source has no mount point on the local file system.
    NotLocal,
    /// The source is not an S3 bucket.
    NotS3,
    /// The S3 source has no region configured.
    NoRegion,
}

/// Whether `s` may receive a transfer: it is connected and is not the excluded source.
pub open spec fn is_target(s: StorageSource, exclude: Option<Seq<char>>) -> bool {
    &&& s.status is Connected
    &&& match exclude {
        Some(x) => s.id@ != x,
        None => true,
    }
}

/// The sources of `s` that may receive a transfer, in order.
pub open spec fn targets(s: Seq<StorageSource>, exclude: Option<Seq<char>>) -> Seq<StorageSource>
    decreases s.len(),
{
    if s.len() == 0 {
        Seq::empty()
    } else if is_target(s.last(), exclude) {
        targets(s.drop_last(), exclude).push(s.last())
    } else {
        targets(s.drop_last(), exclude)
    }
}

/// The view of an optional string slice.
pub open spec fn opt_str(o: Option<&str>) -> Option<Seq<char>> {
    match o {
        Some(x) => Some(x@),
        None => None,
    }
}

/// Every source offered for a transfer is connected, is not the excluded one, and is one of
/// the registered sources.
pub proof fn lemma_targets_sound(s: Seq<StorageSource>, exclude: Option<Seq<char>>)
    ensures
        forall|k: int|
            0 <= k < targets(s, exclude).len() ==> is_target(#[trigger] targets(s, exclude)[k], exclude)
                && s.contains(targets(s, exclude)[k]),
        targets(s, exclude).len() <= s.len(),
    decreases s.len(),
{
    if s.len() > 0 {
        let t = s.drop_last();
        lemma_targets_sound(t, exclude);
        assert forall|k: int| 0 <= k < targets(s, exclude).len() implies is_target(
            #[trigger] targets(s, exclude)[k],
            exclude,
        ) && s.contains(targets(s, exclude)[k]) by {
            if k < targets(t, exclude).len() {
                assert(targets(s, exclude)[k] == targets(t, exclude)[k]);
                let j = choose|j: int| 0 <= j < t.len() && t[j] == targets(t, exclude)[k];
                assert(s[j] == t[j]);
            } else {
                assert(targets(s, exclude)[k] == s.last());
                assert(s[s.len() - 1] == s.last());
            }
        }
    }
}

/// A connected registered source other than the excluded one is offered for a transfer.
pub proof fn lemma_targets_complete(s: Seq<StorageSource>, exclude: Option<Seq<char>>, i: int)
    requires
        0 <= i < s.len(),
        is_target(s[i], exclude),
    ensures
        targets(s, exclude).contains(s[i]),
    decreases s.len(),
{
    let t = s.drop_last();
    if i == s.len() - 1 {
        assert(targets(s, exclude).last() == s[i]);
        assert(targets(s, exclude)[targets(s, exclude).len() - 1] == s[i]);
    } else {
        assert(s[i] == t[i]);
        lemma_targets_complete(t, exclude, i);
        let k = choose|k: int| 0 <= k < targets(t, exclude).len() && targets(t, exclude)[k] == s[i];
        if is_target(s.last(), exclude) {
            assert(targets(s, exclude)[k] == targets(t, exclude)[k]);
        }
    }
}

/// Where the file `path` of a source mounted at `mount` lies on disk: an absolute path already
/// under the mount point as it is; another absolute path, without its leading and trailing
/// slashes, joined to the mount point; a relative path joined to the mount point.
pub open spec fn real_path_of(mount: Seq<char>, path: Seq<char>) -> Seq<char> {
    if path.len() > 0 && path[0] == '/' {
        if under_base(path, mount) {
            path
        } else {
            joined(
                mount,
                trim_end_by(trim_start_by(path, CharClass::Exactly('/')), CharClass::Exactly('/')),
            )
        }
    } else {
        joined(mount, path)
    }
}

/// Where a copy to another source puts `from`, under the folder `to`: the final name of
/// `from` joined to `to`, or `dir` (for a folder) or `file` when `from` has no final name.
pub open spec fn transfer_target(from: Seq<char>, to: Seq<char>, is_dir: bool) -> Seq<char> {
    let name = match file_name_of(from) {
        Some(n) => n,
        None => if is_dir {
            "dir"@
        } else {
            "file"@
        },
    };
    joined(to, name)
}

/// Where a copy to another source puts `from_path` (see `transfer_target`).
pub fn transfer_destination(from_path: &str, to_path: &str, is_dir: bool) -> (r: String)
    ensures
        r@ == transfer_target(from_path@, to_path@, is_dir),
{
    let name = match file_name(from_path) {
        Some(n) => n,
        None => if is_dir {
            String::from_str("dir")
        } else {
            String::from_str("file")
        },
    };
    join_path(to_path, name.as_str())
}

/// What the registry needs to rebuild an S3 source's adapter with new credentials.
#[derive(Debug)]
pub struct S3Target {
    pub name: String,
    pub bucket: String,
    pub region: String,
    pub endpoint: Option<String>,
}

/// A listed file the cache holds: served from the hot tier, cached, nothing to warm.
pub open spec fn warmed(f: VirtualFile) -> VirtualFile {
    VirtualFile { tier: StorageTier::Hot, is_cached: true, can_warm: false, ..f }
}

/// The file as the listing shows it once the cache has answered `cached` for it: a file
/// (not a directory) the cache holds is shown warmed, anything else as the store listed it.
pub open spec fn with_cache_state(f: VirtualFile, cached: bool) -> VirtualFile {
    if !f.is_directory && cached {
        warmed(f)
    } else {
        f
    }
}

/// Marks the listed files the cache holds (`cached[k]` answers for `files[k]`).
pub fn mark_cached(files: &mut Vec<VirtualFile>, cached: &Vec<bool>)
    requires
        cached@.len() == old(files)@.len(),
    ensures
        final(files)@.len() == old(files)@.len(),
        forall|k: int|
            0 <= k < old(files)@.len() ==> #[trigger] final(files)@[k] == with_cache_state(
                old(files)@[k],
                cached@[k],
            ),
{
    let ghost before = files@;
    let n = files.len();
    let mut i: usize = 0;
    while i < n
        invariant
            n == before.len(),
            cached@.len() == n,
            i <= n,
            files@.len() == n,
            forall|k: int| 0 <= k < i ==> #[trigger] files@[k] == with_cache_state(before[k], cached@[k]),
            forall|k: int| i <= k < n ==> #[trigger] files@[k] == before[k],
        decreases n - i,
    {
        if cached[i] && !files[i].is_directory {
            let mut f = files.remove(i);
            f.tier = StorageTier::Hot;
            f.is_cached = true;
            f.can_warm = false;
            files.insert(i, f);
        }
        i = i + 1;
    }
}

/// The sources registered with the virtual filesystem, one record per id.
pub struct SourceRegistry {
    sources: Vec<StorageSource>,
}

impl SourceRegistry {
    /// The records, in the order they were first registered.
    pub closed spec fn records(&self) -> Seq<StorageSource> {
        self.sources@
    }

    /// Whether each id has one record.
    pub closed spec fn well_formed(&self) -> bool {
        keys_unique(self.sources@, source_key())
    }

    /// The record registered under `id`, if any.
    pub open spec fn entry(&self, id: Seq<char>) -> Option<StorageSource> {
        find_keyed(self.records(), source_key(), id)
    }

    /// An empty registry.
    pub fn new() -> (r: Self)
        ensures
            r.well_formed(),
            r.records().len() == 0,
            forall|id: Seq<char>| r.entry(id) is None,
    {
        SourceRegistry { sources: Vec::new() }
    }

    fn position(&self, id: &str) -> (r: Option<usize>)
        requires
            self.well_formed(),
        ensures
            match r {
                Some(i) => i < self.records().len() && self.records()[i as int].id@ == id@
                    && self.entry(id@) == Some(self.records()[i as int]),
                None => self.entry(id@) is None && forall|j: int|
                    0 <= j < self.records().len() ==> (#[trigger] self.records()[j]).id@ != id@,
            },
    {
        let mut i: usize = 0;
        while i < self.sources.len()
            invariant
                i <= self.sources@.len(),
                self.well_formed(),
                forall|j: int| 0 <= j < i ==> (#[trigger] self.sources@[j]).id@ != id@,
            decreases self.sources.len() - i,
        {
            if same_text(self.sources[i].id.as_str(), id) {
                proof {
                    lemma_find_at(self.sources@, source_key(), i as int);
                }
                return Some(i);
            }
            i = i + 1;
        }
        proof {
            lemma_find_index(self.sources@, source_key(), id@);
        }
        None
    }

    /// Registers a source, replacing the record with the same id.
    pub fn add_source(&mut self, source: StorageSource)
        requires
            old(self).well_formed(),
        ensures
            final(self).well_formed(),
            final(self).entry(source.id@) == Some(source),
            forall|id: Seq<char>| id != source.id@ ==> final(self).entry(id) == old(self).entry(id),
    {
        let ghost s = source;
        match self.position(source.id.as_str()) {
            Some(i) => {
                let ghost before = self.sources@;
                self.sources.set(i, source);
                proof {
                    lemma_set_keyed(before, source_key(), i as int, s);
                }
            },
            None => {
                let ghost before = self.sources@;
                self.sources.push(source);
                proof {
                    lemma_push_keyed(before, source_key(), s);
                }
            },
        }
    }

    /// A copy of the record registered under `id`, if any.
    pub fn get_source(&self, id: &str) -> (r: Option<StorageSource>)
        requires
            self.well_formed(),
        ensures
            match self.entry(id@) {
                Some(m) => r matches Some(c) && same_source(c, m),
                None => r is None,
            },
    {
        match self.position(id) {
            Some(i) => Some(self.sources[i].duplicate()),
            None => None,
        }
    }

    /// Copies of all records, each of them the one its id finds.
    pub fn list_sources(&self) -> (r: Vec<StorageSource>)
        requires
            self.well_formed(),
        ensures
            r@.len() == self.records().len(),
            forall|k: int|
                0 <= k < r@.len() ==> same_source(#[trigger] r@[k], self.records()[k])
                    && self.entry(r@[k].id@) == Some(self.records()[k]),
    {
        let mut out: Vec<StorageSource> = Vec::new();
        let mut i: usize = 0;
        while i < self.sources.len()
            invariant
                i <= self.sources@.len(),
                self.well_formed(),
                out@.len() == i,
                forall|k: int|
                    0 <= k < i ==> same_source(#[trigger] out@[k], self.sources@[k])
                        && self.entry(out@[k].id@) == Some(self.sources@[k]),
            decreases self.sources.len() - i,
        {
            let c = self.sources[i].duplicate();
            proof {
                lemma_find_at(self.sources@, source_key(), i as int);
            }
            out.push(c);
            i = i + 1;
        }
        out
    }

    /// Sets the connection status of the source `id`; it is mounted exactly when connected.
    pub fn update_source_status(&mut self, id: &str, status: ConnectionStatus) -> (r: Result<
        (),
        SourceError,
    >)
        requires
            old(self).well_formed(),
        ensures
            final(self).well_formed(),
            match old(self).entry(id@) {
                None => r == Err::<(), SourceError>(SourceError::NotFound) && final(self).records()
                    == old(self).records(),
                Some(o) => r is Ok && final(self).entry(id@) == Some(
                    (StorageSource {
                        id: o.id,
                        name: o.name,
                        source_type: o.source_type,
                        status: status,
                        mounted: status is Connected,
                        mount_point: o.mount_point,
                        config: o.config,
                    }),
                ) && forall|other: Seq<char>|
                    other != id@ ==> final(self).entry(other) == old(self).entry(other),
            },
    {
        match self.position(id) {
            None => Err(SourceError::NotFound),
            Some(i) => {
                let ghost before = self.sources@;
                let connected = status.is_connected();
                let mut rec = self.sources.remove(i);
                rec.status = status;
                rec.mounted = connected;
                let ghost updated = rec;
                self.sources.insert(i, rec);
                proof {
                    assert(self.sources@ =~= before.update(i as int, updated));
                    lemma_set_keyed(before, source_key(), i as int, updated);
                }
                Ok(())
            },
        }
    }

    /// Forgets the source `id` and hands back its record, if there was one.
    pub fn remove_source(&mut self, id: &str) -> (r: Option<StorageSource>)
        requires
            old(self).well_formed(),
        ensures
            final(self).well_formed(),
            r == old(self).entry(id@),
            final(self).entry(id@) is None,
            forall|other: Seq<char>| other != id@ ==> final(self).entry(other) == old(self).entry(other),
    {
        match self.position(id) {
            Some(i) => {
                let ghost before = self.sources@;
                let removed = self.sources.remove(i);
                proof {
                    lemma_remove_keyed(before, source_key(), i as int);
                }
                Some(removed)
            },
            None => None,
        }
    }

    /// Copies of the sources that may receive a transfer: the connected ones, without the
    /// excluded source.
    pub fn get_transfer_targets(&self, exclude: Option<&str>) -> (r: Vec<StorageSource>)
        ensures
            r@.len() == targets(self.records(), opt_str(exclude)).len(),
            forall|k: int|
                0 <= k < r@.len() ==> same_source(
                    #[trigger] r@[k],
                    targets(self.records(), opt_str(exclude))[k],
                ),
    {
        let ghost ex = opt_str(exclude);
        let ghost s = self.sources@;
        let mut out: Vec<StorageSource> = Vec::new();
        let mut i: usize = 0;
        while i < self.sources.len()
            invariant
                s == self.sources@,
                ex == opt_str(exclude),
                i <= s.len(),
                out@.len() == targets(s.subrange(0, i as int), ex).len(),
                forall|k: int|
                    0 <= k < out@.len() ==> same_source(
                        #[trigger] out@[k],
                        targets(s.subrange(0, i as int), ex)[k],
                    ),
            decreases s.len() - i,
        {
            proof {
                assert(s.subrange(0, i + 1).drop_last() =~= s.subrange(0, i as int));
                assert(s.subrange(0, i + 1).last() == s[i as int]);
            }
            let rec = &self.sources[i];
            let keep = match exclude {
                Some(x) => rec.status.is_connected() && !same_text(rec.id.as_str(), x),
                None => rec.status.is_connected(),
            };
            if keep {
                out.push(rec.duplicate());
            }
            i = i + 1;
        }
        proof {
            assert(s.subrange(0, s.len() as int) =~= s);
        }
        out
    }

    /// Where the file `path` of the source `id` lies on disk (see `real_path_of`); a source
    /// without a mount point has none.
    pub fn get_real_path(&self, id: &str, path: &str) -> (r: Result<String, SourceError>)
        requires
            self.well_formed(),
        ensures
            match self.entry(id@) {
                None => r == Err::<String, SourceError>(SourceError::NotFound),
                Some(s) => match s.mount_point {
                    None => r == Err::<String, SourceError>(SourceError::NotLocal),
                    Some(m) => r matches Ok(p) && p@ == real_path_of(m@, path@),
                },
            },
    {
        let i = match self.position(id) {
            None => {
                return Err(SourceError::NotFound);
            },
            Some(i) => i,
        };
        let mount = match &self.sources[i].mount_point {
            None => {
                return Err(SourceError::NotLocal);
            },
            Some(m) => m,
        };
        let cs = crate::text::chars_of(path);
        let absolute = cs.len() > 0 && cs[0] == '/';
        if absolute {
            if is_under_base(path, mount.as_str()) {
                return Ok(path.to_string());
            }
            let rel = trim_start_class(path, CharClass::Exactly('/'));
            let rel = trim_end_class(rel.as_str(), CharClass::Exactly('/'));
            Ok(join_path(mount.as_str(), rel.as_str()))
        } else {
            Ok(join_path(mount.as_str(), path))
        }
    }

    /// The bucket, region and endpoint of the S3 source `id`, to rebuild its adapter with new
    /// credentials.
    pub fn s3_credentials_target(&self, id: &str) -> (r: Result<S3Target, SourceError>)
        requires
            self.well_formed(),
        ensures
            match self.entry(id@) {
                None => r == Err::<S3Target, SourceError>(SourceError::NotFound),
                Some(s) => if !(s.source_type is S3) {
                    r == Err::<S3Target, SourceError>(SourceError::NotS3)
                } else {
                    match s.config.region {
                        None => r == Err::<S3Target, SourceError>(SourceError::NoRegion),
                        Some(reg) => r matches Ok(t) && t.name@ == s.name@ && t.bucket@
                            == s.config.path_or_bucket@ && t.region@ == reg@ && opt_chars(
                            t.endpoint,
                        ) == opt_chars(s.config.endpoint),
                    }
                },
            },
    {
        let i = match self.position(id) {
            None => {
                return Err(SourceError::NotFound);
            },
            Some(i) => i,
        };
        let s = &self.sources[i];
        match s.source_type {
            StorageSourceType::S3 => {},
            _ => {
                return Err(SourceError::NotS3);
            },
        }
        match &s.config.region {
            None => Err(SourceError::NoRegion),
            Some(reg) => Ok(
                S3Target {
                    name: s.name.clone(),
                    bucket: s.config.path_or_bucket.clone(),
                    region: reg.clone(),
                    endpoint: copy_opt(&s.config.endpoint),
                },
            ),
        }
    }

    /// What rebuilding the adapter of the S3 source `id` with refreshed credentials needs:
    /// its name, bucket, endpoint, and region (`us-east-1` when it has none).
    pub fn s3_refresh_target(&self, id: &str) -> (r: Result<S3Target, SourceError>)
        requires
            self.well_formed(),
        ensures
            match self.entry(id@) {
                None => r == Err::<S3Target, SourceError>(SourceError::NotFound),
                Some(s) => if !(s.source_type is S3) {
                    r == Err::<S3Target, SourceError>(SourceError::NotS3)
                } else {
                    r matches Ok(t) && t.name@ == s.name@ && t.bucket@ == s.config.path_or_bucket@
                        && t.region@ == match s.config.region {
                        Some(reg) => reg@,
                        None => "us-east-1"@,
                    } && opt_chars(t.endpoint) == opt_chars(s.config.endpoint)
                },
            },
    {
        let i = match self.position(id) {
            None => {
                return Err(SourceError::NotFound);
            },
            Some(i) => i,
        };
        let s = &self.sources[i];
        match s.source_type {
            StorageSourceType::S3 => {},
            _ => {
                return Err(SourceError::NotS3);
            },
        }
        let region = match &s.config.region {
            None => String::from_str("us-east-1"),
            Some(reg) => reg.clone(),
        };
        Ok(
            S3Target {
                name: s.name.clone(),
                bucket: s.config.path_or_bucket.clone(),
                region,
                endpoint: copy_opt(&s.config.endpoint),
            },
        )
    }
}

} // verus!
