//! The S3 adapter: bucket and region checks, the operator it is built on, and the listing,
//! deletion and error rules that sit between the virtual filesystem and the object store.

use vstd::prelude::*;
use crate::domain::{StorageTier, VirtualFile};
use crate::clipboard::views;
use crate::listing::{rank_sort, sort_listing};
use crate::paths::{child_path, file_name, file_name_of, join_child, key_of, to_key};
use crate::text::{
    before_first, chars_of, contains, contains_seq, decimal, ends_with, find_char, has_prefix, has_suffix,
    lowercase, same_text, split_any, split_chars, starts_with, string_of_range, to_decimal, to_lowercase, trim, trimmed,
};

verus! {

/// An OpenDAL operator: the handle through which every object operation goes.
#[verifier::external_type_specification]
#[verifier::external_body]
pub struct ExOperator(opendal::Operator);

/// An error reported by OpenDAL.
#[verifier::external_type_specification]
#[verifier::external_body]
pub struct ExOpendalError(opendal::Error);

/// What an S3 operator is built from: the bucket, the signing region, the credentials given
/// and a custom endpoint.
#[derive(Debug)]
pub struct S3Config {
    pub bucket: String,
    pub region: String,
    pub access_key: Option<String>,
    pub secret_key: Option<String>,
    pub session_token: Option<String>,
    pub endpoint: Option<String>,
}

/// An optional text, copied.
fn copy_text(o: &Option<String>) -> (r: Option<String>)
    ensures
        r == *o,
{
    match o {
        Some(s) => Some(s.clone()),
        None => None,
    }
}

/// Builds an OpenDAL S3 operator from a configuration: `S3::default`, then `S3::bucket` and
/// `S3::region`, then `S3::access_key_id`, `S3::secret_access_key`, `S3::security_token` and
/// `S3::endpoint` for each of them that is given, then `Operator::new` and `finish`; the
/// configuration comes back with the operator. Whether the build succeeds depends on the AWS
/// profile and environment that OpenDAL reads and on its HTTP client, so nothing is stated of
/// it.
#[verifier::external_body]
fn s3_open(config: S3Config) -> (r: Result<(opendal::Operator, S3Config), opendal::Error>)
    ensures
        r matches Ok((_, c)) ==> c == config,
{
    let mut b = opendal::services::S3::default();
    b.bucket(&config.bucket);
    b.region(&config.region);
    if let Some(k) = &config.access_key { b.access_key_id(k); }
    if let Some(k) = &config.secret_key { b.secret_access_key(k); }
    if let Some(t) = &config.session_token { b.security_token(t); }
    if let Some(e) = &config.endpoint { b.endpoint(e); }
    opendal::Operator::new(b).map(|ob| (ob.finish(), config))
}

/// Why an S3 adapter could not be made.
#[derive(Debug)]
pub enum S3Error {
    /// The bucket name is empty once trimmed.
    EmptyBucket,
    /// The (trimmed) bucket name holds a space.
    BucketContainsSpaces { bucket: String },
    /// The (trimmed) bucket name is not 3 to 63 bytes long.
    BucketLength { bucket: String, length: usize },
    /// The (trimmed) bucket name holds a character other than a lower-case letter, a digit, a
    /// dot or a hyphen.
    BucketCharacters { bucket: String },
    /// The (trimmed) bucket name does not start and end with a letter or a digit.
    BucketEdges { bucket: String },
    /// The (trimmed) bucket name is formatted as an IP address.
    BucketIpAddress { bucket: String },
    /// OpenDAL refused to build the operator.
    Backend(opendal::Error),
}

impl S3Error {
    /// The message for a refused bucket name, in the words the adapter reports it; none for
    /// an error of OpenDAL, whose own text the caller reports.
    pub fn message(&self) -> (r: Option<String>)
        ensures
            match self {
                S3Error::EmptyBucket => r matches Some(m) && m@ == "Bucket name cannot be empty"@,
                S3Error::BucketContainsSpaces { bucket } => r matches Some(m) && m@ == "Bucket name '"@
                    + bucket@
                    + "' contains spaces. S3 bucket names cannot contain spaces. Please use the actual bucket name (e.g., 'diaspor-vfs-test'), not a display name."@,
                S3Error::BucketLength { bucket, length } => r matches Some(m) && m@ == "Bucket name '"@
                    + bucket@ + "' must be between 3 and 63 characters (got "@ + decimal(*length as nat)
                    + ")."@,
                S3Error::BucketCharacters { bucket } => r matches Some(m) && m@ == "Bucket name '"@
                    + bucket@
                    + "' may only contain lower-case letters, numbers, dots and hyphens."@,
                S3Error::BucketEdges { bucket } => r matches Some(m) && m@ == "Bucket name '"@
                    + bucket@ + "' must start and end with a letter or a number."@,
                S3Error::BucketIpAddress { bucket } => r matches Some(m) && m@ == "Bucket name '"@
                    + bucket@ + "' must not be formatted as an IP address."@,
                S3Error::Backend(_) => r is None,
            },
    {
        match self {
            S3Error::EmptyBucket => Some(String::from_str("Bucket name cannot be empty")),
            S3Error::BucketContainsSpaces { bucket } => Some(String::from_str("Bucket name '").concat(
                bucket.as_str(),
            ).concat(
                "' contains spaces. S3 bucket names cannot contain spaces. Please use the actual bucket name (e.g., 'diaspor-vfs-test'), not a display name.",
            )),
            S3Error::BucketLength { bucket, length } => {
                let n = to_decimal(*length as u64);
                Some(String::from_str("Bucket name '").concat(bucket.as_str()).concat(
                    "' must be between 3 and 63 characters (got ",
                ).concat(n.as_str()).concat(")."))
            },
            S3Error::BucketCharacters { bucket } => Some(String::from_str("Bucket name '").concat(
                bucket.as_str(),
            ).concat("' may only contain lower-case letters, numbers, dots and hyphens.")),
            S3Error::BucketEdges { bucket } => Some(String::from_str("Bucket name '").concat(
                bucket.as_str(),
            ).concat("' must start and end with a letter or a number.")),
            S3Error::BucketIpAddress { bucket } => Some(String::from_str("Bucket name '").concat(
                bucket.as_str(),
            ).concat("' must not be formatted as an IP address.")),
            S3Error::Backend(_) => None,
        }
    }
}

/// What is wrong with a bucket name, if anything.
#[derive(Clone, Copy, PartialEq, Eq, Debug, Structural)]
pub enum BucketProblem {
    Empty,
    ContainsSpaces,
    BadLength,
    BadCharacters,
    BadEdges,
    IpAddress,
}

/// The length in bytes of the UTF-8 encoding of `s`.
pub open spec fn byte_len(s: Seq<char>) -> int {
    vstd::utf8::encode_utf8(s).len() as int
}

/// Whether a character may stand in a bucket name: a lower-case letter, a digit, a dot or a
/// hyphen.
pub open spec fn bucket_char(c: char) -> bool {
    ('a' <= c && c <= 'z') || ('0' <= c && c <= '9') || c == '.' || c == '-'
}

/// Whether a character is a lower-case letter or a digit.
pub open spec fn letter_or_digit(c: char) -> bool {
    ('a' <= c && c <= 'z') || ('0' <= c && c <= '9')
}

/// Whether a piece is one to three decimal digits.
pub open spec fn ip_group(g: Seq<char>) -> bool {
    1 <= g.len() <= 3 && forall|i: int| 0 <= i < g.len() ==> '0' <= #[trigger] g[i] && g[i] <= '9'
}

/// Whether a name is formatted as an IP address: four groups of one to three digits, separated
/// by dots.
pub open spec fn ip_formatted(t: Seq<char>) -> bool {
    let gs = split_any(t, '.', '.');
    gs.len() == 4 && forall|k: int| 0 <= k < 4 ==> ip_group(#[trigger] gs[k])
}

/// The problem with a bucket name, judged on its trimmed form, by S3's naming rules: not
/// empty, no spaces, 3 to 63 characters, only lower-case letters, digits, dots and hyphens,
/// starting and ending with a letter or a digit, and not formatted as an IP address.
pub open spec fn bucket_problem(bucket: Seq<char>) -> Option<BucketProblem> {
    let t = trimmed(bucket);
    if t.len() == 0 {
        Some(BucketProblem::Empty)
    } else if t.contains(' ') {
        Some(BucketProblem::ContainsSpaces)
    } else if byte_len(t) < 3 || byte_len(t) > 63 {
        Some(BucketProblem::BadLength)
    } else if exists|i: int| 0 <= i < t.len() && !bucket_char(#[trigger] t[i]) {
        Some(BucketProblem::BadCharacters)
    } else if !letter_or_digit(t[0]) || !letter_or_digit(t.last()) {
        Some(BucketProblem::BadEdges)
    } else if ip_formatted(t) {
        Some(BucketProblem::IpAddress)
    } else {
        None
    }
}

fn is_ip_formatted(t: &str) -> (r: bool)
    ensures
        r == ip_formatted(t@),
{
    let gs = split_chars(t, '.', '.');
    if gs.len() != 4 {
        return false;
    }
    let mut k: usize = 0;
    while k < 4
        invariant
            k <= 4,
            gs@.len() == 4,
            split_any(t@, '.', '.').len() == 4,
            forall|j: int| 0 <= j < 4 ==> (#[trigger] gs@[j])@ == split_any(t@, '.', '.')[j],
            forall|j: int| 0 <= j < k ==> ip_group(#[trigger] split_any(t@, '.', '.')[j]),
        decreases 4 - k,
    {
        let g = chars_of(gs[k].as_str());
        assert(g@ == split_any(t@, '.', '.')[k as int]);
        if g.len() < 1 || g.len() > 3 {
            assert(!ip_group(split_any(t@, '.', '.')[k as int]));
            return false;
        }
        let mut i: usize = 0;
        while i < g.len()
            invariant
                i <= g@.len(),
                k < 4,
                g@ == split_any(t@, '.', '.')[k as int],
                forall|j: int| 0 <= j < i ==> '0' <= #[trigger] g@[j] && g@[j] <= '9',
            decreases g.len() - i,
        {
            if !('0' <= g[i] && g[i] <= '9') {
                assert(!ip_group(split_any(t@, '.', '.')[k as int]));
                return false;
            }
            i = i + 1;
        }
        k = k + 1;
    }
    true
}

/// Checks a bucket name and returns its trimmed form.
pub fn validate_bucket(bucket: &str) -> (r: Result<String, S3Error>)
    ensures
        match bucket_problem(bucket@) {
            None => r matches Ok(b) && b@ == trimmed(bucket@),
            Some(BucketProblem::Empty) => r matches Err(S3Error::EmptyBucket),
            Some(BucketProblem::ContainsSpaces) => r matches Err(S3Error::BucketContainsSpaces { bucket: b }) && b@ == trimmed(bucket@),
            Some(BucketProblem::BadLength) => r matches Err(S3Error::BucketLength { bucket: b, length: n }) && b@ == trimmed(bucket@) && n == byte_len(trimmed(bucket@)),
            Some(BucketProblem::BadCharacters) => r matches Err(S3Error::BucketCharacters { bucket: b }) && b@ == trimmed(bucket@),
            Some(BucketProblem::BadEdges) => r matches Err(S3Error::BucketEdges { bucket: b }) && b@ == trimmed(bucket@),
            Some(BucketProblem::IpAddress) => r matches Err(S3Error::BucketIpAddress { bucket: b }) && b@ == trimmed(bucket@),
        },
{
    let t = trim(bucket);
    if t.as_str().is_empty() {
        return Err(S3Error::EmptyBucket);
    }
    let v = chars_of(t.as_str());
    match find_char(v.as_slice(), ' ') {
        Some(i) => {
            assert(t@.contains(' ')) by {
                assert(t@[i as int] == ' ');
            }
            return Err(S3Error::BucketContainsSpaces { bucket: t });
        },
        None => {
            assert(!t@.contains(' '));
        },
    }
    let n = t.as_str().as_bytes().len();
    if n < 3 || n > 63 {
        return Err(S3Error::BucketLength { bucket: t, length: n });
    }
    let mut i: usize = 0;
    while i < v.len()
        invariant
            i <= v@.len(),
            v@ == t@,
            t@ == trimmed(bucket@),
            t@.len() > 0,
            !t@.contains(' '),
            !(byte_len(t@) < 3 || byte_len(t@) > 63),
            forall|j: int| 0 <= j < i ==> bucket_char(#[trigger] v@[j]),
        decreases v.len() - i,
    {
        let c = v[i];
        if !(('a' <= c && c <= 'z') || ('0' <= c && c <= '9') || c == '.' || c == '-') {
            assert(!bucket_char(t@[i as int]));
            return Err(S3Error::BucketCharacters { bucket: t });
        }
        i = i + 1;
    }
    let first = v[0];
    let last = v[v.len() - 1];
    assert(t@.last() == t@[t@.len() - 1]);
    if !(('a' <= first && first <= 'z') || ('0' <= first && first <= '9'))
        || !(('a' <= last && last <= 'z') || ('0' <= last && last <= '9')) {
        return Err(S3Error::BucketEdges { bucket: t });
    }
    if is_ip_formatted(t.as_str()) {
        return Err(S3Error::BucketIpAddress { bucket: t });
    }
    Ok(t)
}

/// The tier an S3 storage class stands for: the Glacier classes are cold, everything else
/// (Standard, the infrequent-access classes, intelligent tiering, unknown or absent classes)
/// is nearline.
pub open spec fn tier_of_class(class: Option<Seq<char>>) -> StorageTier {
    match class {
        Some(c) => if c == "GLACIER_IR"@ || c == "GLACIER"@ || c == "DEEP_ARCHIVE"@ {
            StorageTier::Cold
        } else {
            StorageTier::Nearline
        },
        None => StorageTier::Nearline,
    }
}

/// The expected wait before a file of this tier can be read: none for nearline, five seconds
/// otherwise.
pub open spec fn retrieval_estimate(tier: StorageTier) -> u64 {
    match tier {
        StorageTier::Nearline => 0,
        _ => 5,
    }
}

/// A listed object as OpenDAL reports it.
#[derive(Clone, Debug)]
pub struct ObjectEntry {
    /// The entry's name (`Entry::name`).
    pub name: String,
    pub is_dir: bool,
    /// Content length in bytes.
    pub size: u64,
    /// Last modification, in seconds since the Unix epoch, where reported.
    pub modified: Option<i64>,
}

/// The prefix that lists the children of a key: the key and a `/`, or nothing at the root.
pub open spec fn list_prefix_of(key: Seq<char>) -> Seq<char> {
    if key.len() == 0 {
        key
    } else {
        key.push('/')
    }
}

/// Whether a listed name belongs to an unfinished upload (a part, chunk or temporary file).
pub open spec fn is_transient(child: Seq<char>, name: Seq<char>) -> bool {
    ||| has_suffix(child, ".part"@)
    ||| contains_seq(child, ".part."@)
    ||| contains_seq(child, ".chunk."@)
    ||| contains_seq(child, ".tmp."@)
    ||| has_suffix(child, ".tmp"@)
    ||| contains_seq(name, ".part"@)
    ||| contains_seq(name, ".chunk."@)
    ||| contains_seq(name, ".tmp."@)
}

/// The immediate child that a listed name stands for under `prefix`, or none when the entry
/// is skipped: empty names, the prefix itself, names outside the prefix, and unfinished
/// uploads.
pub open spec fn entry_child(name: Seq<char>, prefix: Seq<char>) -> Option<Seq<char>> {
    if name.len() == 0 || name == seq!['/'] || name == prefix {
        None
    } else if prefix.len() != 0 && !has_prefix(name, prefix) {
        None
    } else {
        let rel = if prefix.len() == 0 {
            name
        } else {
            name.subrange(prefix.len() as int, name.len() as int)
        };
        let child = before_first(rel, '/');
        if child.len() == 0 || is_transient(child, name) {
            None
        } else {
            Some(child)
        }
    }
}

/// The entries that make it into a listing, each with its child name: the first entry for
/// each child, in the order of the entries.
pub open spec fn kept_children(entries: Seq<ObjectEntry>, prefix: Seq<char>) -> Seq<
    (int, Seq<char>),
>
    decreases entries.len(),
{
    if entries.len() == 0 {
        Seq::empty()
    } else {
        let prev = kept_children(entries.drop_last(), prefix);
        match entry_child(entries.last().name@, prefix) {
            Some(c) => if exists|k: int| 0 <= k < prev.len() && prev[k].1 == c {
                prev
            } else {
                prev.push((entries.len() - 1, c))
            },
            None => prev,
        }
    }
}

/// The listed file for an entry: named by its child, placed under `path`, nearline.
pub open spec fn listed_as(f: VirtualFile, e: ObjectEntry, child: Seq<char>, path: Seq<char>) -> bool {
    &&& f.name@ == child
    &&& f.path@ == child_path(path, child)
    &&& f.size == e.size
    &&& f.is_directory == e.is_dir
    &&& f.modified == e.modified
    &&& f.tier == StorageTier::Nearline
    &&& !f.is_cached
    &&& f.can_warm
    &&& f.retrieval_time_estimate == Some(0u64)
}

/// The files of a listing, in the order of the entries, before sorting.
pub open spec fn children_listed(
    files: Seq<VirtualFile>,
    entries: Seq<ObjectEntry>,
    prefix: Seq<char>,
    path: Seq<char>,
) -> bool {
    let kept = kept_children(entries, prefix);
    &&& files.len() == kept.len()
    &&& forall|k: int|
        0 <= k < files.len() ==> {
            &&& 0 <= (#[trigger] kept[k]).0 < entries.len()
            &&& listed_as(files[k], entries[kept[k].0], kept[k].1, path)
        }
}

proof fn lemma_first_index_unique(s: Seq<char>, c: char, i: int)
    requires
        0 <= i < s.len(),
        s[i] == c,
        forall|j: int| 0 <= j < i ==> s[j] != c,
    ensures
        before_first(s, c) == s.subrange(0, i),
{
    let k = choose|k: int| 0 <= k < s.len() && s[k] == c && forall|j: int| 0 <= j < k ==> s[j] != c;
    assert(0 <= k < s.len() && s[k] == c && forall|j: int| 0 <= j < k ==> s[j] != c);
    if k < i {
        assert(s[k] != c);
    } else if k > i {
        assert(s[i] != c);
    }
}

/// The immediate child that a listed name stands for (see `entry_child`).
pub fn child_of_entry(name: &str, prefix: &str) -> (r: Option<String>)
    ensures
        match r {
            Some(c) => entry_child(name@, prefix@) == Some(c@),
            None => entry_child(name@, prefix@) is None,
        },
{
    proof {
        reveal_strlit("/");
        assert("/"@ =~= seq!['/']);
    }
    if name.is_empty() || same_text(name, "/") || same_text(name, prefix) {
        return None;
    }
    let v = chars_of(name);
    let lo: usize = if prefix.is_empty() {
        0
    } else if starts_with(name, prefix) {
        let p = chars_of(prefix);
        p.len()
    } else {
        return None;
    };
    let ghost rel = v@.subrange(lo as int, v@.len() as int);
    proof {
        if lo == 0 {
            assert(rel =~= v@);
        }
    }
    let mut k: usize = lo;
    while k < v.len() && v[k] != '/'
        invariant
            lo <= k <= v.len(),
            forall|j: int| lo <= j < k ==> v@[j] != '/',
        decreases v.len() - k,
    {
        k = k + 1;
    }
    proof {
        if k < v.len() {
            lemma_first_index_unique(rel, '/', k - lo);
        } else {
            assert(!(exists|i: int| 0 <= i < rel.len() && rel[i] == '/')) by {
                assert forall|i: int| 0 <= i < rel.len() implies rel[i] != '/' by {
                    assert(rel[i] == v@[i + lo]);
                }
            }
            assert(rel.subrange(0, rel.len() as int) =~= rel);
        }
        assert(rel.subrange(0, k - lo) =~= v@.subrange(lo as int, k as int));
    }
    let child = string_of_range(v.as_slice(), lo, k);
    if child.as_str().is_empty() {
        return None;
    }
    let c = child.as_str();
    if ends_with(c, ".part") || contains(c, ".part.") || contains(c, ".chunk.") || contains(
        c,
        ".tmp.",
    ) || ends_with(c, ".tmp") || contains(name, ".part") || contains(name, ".chunk.") || contains(
        name,
        ".tmp.",
    ) {
        return None;
    }
    Some(child)
}

/// Whether some kept name equals `c`.
fn name_taken(names: &Vec<Vec<char>>, c: &Vec<char>) -> (r: bool)
    ensures
        r == exists|k: int| 0 <= k < names@.len() && (#[trigger] names@[k])@ == c@,
{
    let mut i: usize = 0;
    while i < names.len()
        invariant
            i <= names@.len(),
            forall|k: int| 0 <= k < i ==> (#[trigger] names@[k])@ != c@,
        decreases names.len() - i,
    {
        let n = &names[i];
        let same = if n.len() == c.len() {
            let m = crate::text::matches_at(n.as_slice(), c.as_slice(), 0);
            assert(n@.subrange(0, c@.len() as int) =~= n@);
            m
        } else {
            false
        };
        if same {
            return true;
        }
        i = i + 1;
    }
    false
}

/// The files of a listing in the order of the entries (see `children_listed`).
pub fn collect_children(path: &str, prefix: &str, entries: &Vec<ObjectEntry>) -> (r: Vec<
    VirtualFile,
>)
    ensures
        children_listed(r@, entries@, prefix@, path@),
{
    let mut out: Vec<VirtualFile> = Vec::new();
    let mut names: Vec<Vec<char>> = Vec::new();
    let mut i: usize = 0;
    while i < entries.len()
        invariant
            i <= entries@.len(),
            names@.len() == out@.len(),
            children_listed(out@, entries@.subrange(0, i as int), prefix@, path@),
            forall|k: int|
                0 <= k < names@.len() ==> (#[trigger] names@[k])@ == kept_children(
                    entries@.subrange(0, i as int),
                    prefix@,
                )[k].1,
        decreases entries.len() - i,
    {
        let e = &entries[i];
        let ghost pre = entries@.subrange(0, i as int);
        let ghost post = entries@.subrange(0, i + 1);
        proof {
            assert(post.drop_last() =~= pre);
            assert(post.last() == entries@[i as int]);
        }
        match child_of_entry(e.name.as_str(), prefix) {
            Some(child) => {
                let cv = chars_of(child.as_str());
                if !name_taken(&names, &cv) {
                    let p = join_child(path, child.as_str());
                    let f = VirtualFile {
                        name: child,
                        path: p,
                        size: e.size,
                        is_directory: e.is_dir,
                        modified: e.modified,
                        tier: StorageTier::Nearline,
                        is_cached: false,
                        can_warm: true,
                        retrieval_time_estimate: Some(0),
                    };
                    proof {
                        let prev = kept_children(pre, prefix@);
                        assert(!(exists|k: int| 0 <= k < prev.len() && prev[k].1 == cv@)) by {
                            assert forall|k: int| 0 <= k < prev.len() implies prev[k].1 != cv@ by {
                                assert(names@[k]@ == prev[k].1);
                            }
                        }
                    }
                    out.push(f);
                    names.push(cv);
                } else {
                    proof {
                        let prev = kept_children(pre, prefix@);
                        let k = choose|k: int| 0 <= k < names@.len() && (#[trigger] names@[k])@ == cv@;
                        assert(prev[k].1 == cv@);
                    }
                }
            },
            None => {},
        }
        i = i + 1;
        proof {
            let kept = kept_children(post, prefix@);
            assert forall|k: int| 0 <= k < out@.len() implies {
                &&& 0 <= (#[trigger] kept[k]).0 < post.len()
                &&& listed_as(out@[k], post[kept[k].0], kept[k].1, path@)
            } by {
                assert(post[kept[k].0] == entries@[kept[k].0]);
                if k < kept_children(pre, prefix@).len() {
                    assert(pre[kept[k].0] == entries@[kept[k].0]);
                }
            }
        }
    }
    proof {
        assert(entries@.subrange(0, i as int) =~= entries@);
    }
    out
}

/// The sorted listing of a directory from the entries listed under its prefix.
pub fn listing_from_entries(path: &str, prefix: &str, entries: &Vec<ObjectEntry>) -> (r: Vec<
    VirtualFile,
>)
    ensures
        exists|u: Seq<VirtualFile>| children_listed(u, entries@, prefix@, path@) && r@ == rank_sort(u, true),
{
    let files = collect_children(path, prefix, entries);
    let ghost u = files@;
    let r = sort_listing(files);
    assert(children_listed(u, entries@, prefix@, path@) && r@ == rank_sort(u, true));
    r
}

/// An S3 bucket seen as a storage source.
pub struct S3StorageAdapter {
    operator: opendal::Operator,
    config: S3Config,
    bucket: String,
    name: String,
    region: String,
    endpoint: Option<String>,
}

impl S3StorageAdapter {
    /// The OpenDAL operator the adapter holds.
    pub closed spec fn op(&self) -> opendal::Operator {
        self.operator
    }

    /// What the operator was built from.
    pub closed spec fn config(&self) -> S3Config {
        self.config
    }

    /// The bucket name.
    pub closed spec fn bucket_name(&self) -> Seq<char> {
        self.bucket@
    }

    /// The display name.
    pub closed spec fn display_name(&self) -> Seq<char> {
        self.name@
    }

    /// The (lower-cased) region.
    pub closed spec fn region_name(&self) -> Seq<char> {
        self.region@
    }

    /// The custom endpoint, if any.
    pub closed spec fn endpoint_url(&self) -> Option<Seq<char>> {
        match self.endpoint {
            Some(e) => Some(e@),
            None => None,
        }
    }

    /// Makes an adapter for `bucket` in `region`. The bucket name is trimmed and checked; the
    /// region is lower-cased; credentials and endpoint are handed to OpenDAL where given.
    pub fn new(
        bucket: String,
        region: String,
        access_key: Option<String>,
        secret_key: Option<String>,
        session_token: Option<String>,
        endpoint: Option<String>,
        name: String,
    ) -> (r: Result<Self, S3Error>)
        ensures
            bucket_problem(bucket@) is Some ==> r is Err && !(r matches Err(S3Error::Backend(_))),
            bucket_problem(bucket@) is None ==> (r is Ok || r matches Err(S3Error::Backend(_))),
            bucket_problem(bucket@) matches Some(BucketProblem::Empty) ==> r matches Err(S3Error::EmptyBucket),
            bucket_problem(bucket@) matches Some(BucketProblem::ContainsSpaces) ==> r matches Err(S3Error::BucketContainsSpaces { .. }),
            bucket_problem(bucket@) matches Some(BucketProblem::BadLength) ==> r matches Err(S3Error::BucketLength { .. }),
            bucket_problem(bucket@) matches Some(BucketProblem::BadCharacters) ==> r matches Err(S3Error::BucketCharacters { .. }),
            bucket_problem(bucket@) matches Some(BucketProblem::BadEdges) ==> r matches Err(S3Error::BucketEdges { .. }),
            bucket_problem(bucket@) matches Some(BucketProblem::IpAddress) ==> r matches Err(S3Error::BucketIpAddress { .. }),
            r matches Ok(a) ==> {
                &&& a.config().bucket@ == trimmed(bucket@)
                &&& a.config().region@ == lowercase(region@)
                &&& a.config().access_key == access_key
                &&& a.config().secret_key == secret_key
                &&& a.config().session_token == session_token
                &&& a.config().endpoint == endpoint
                &&& a.bucket_name() == trimmed(bucket@)
                &&& a.region_name() == lowercase(region@)
                &&& a.display_name() == name@
                &&& a.endpoint_url() == match endpoint {
                    Some(e) => Some(e@),
                    None => None::<Seq<char>>,
                }
            },
    {
        let bucket = match validate_bucket(bucket.as_str()) {
            Ok(b) => b,
            Err(e) => {
                return Err(e);
            },
        };
        let normalized_region = to_lowercase(region.as_str());
        let config = S3Config {
            bucket: bucket.clone(),
            region: normalized_region.clone(),
            access_key,
            secret_key,
            session_token,
            endpoint: copy_text(&endpoint),
        };
        match s3_open(config) {
            Ok((operator, config)) => Ok(S3StorageAdapter {
                operator,
                config,
                bucket,
                name,
                region: normalized_region,
                endpoint,
            }),
            Err(e) => Err(S3Error::Backend(e)),
        }
    }

    /// Rebuilds the OpenDAL operator with new credentials for the same bucket and region (the
    /// custom endpoint is not handed to the new operator); on failure the adapter keeps its
    /// operator.
    pub fn refresh_credentials(
        &mut self,
        access_key: Option<String>,
        secret_key: Option<String>,
        session_token: Option<String>,
    ) -> (r: Result<(), S3Error>)
        ensures
            final(self).bucket_name() == old(self).bucket_name(),
            final(self).region_name() == old(self).region_name(),
            final(self).display_name() == old(self).display_name(),
            final(self).endpoint_url() == old(self).endpoint_url(),
            r is Ok || r matches Err(S3Error::Backend(_)),
            r is Err ==> final(self).op() == old(self).op() && final(self).config() == old(self).config(),
            r is Ok ==> {
                &&& final(self).config().bucket@ == old(self).bucket_name()
                &&& final(self).config().region@ == old(self).region_name()
                &&& final(self).config().access_key == access_key
                &&& final(self).config().secret_key == secret_key
                &&& final(self).config().session_token == session_token
                &&& final(self).config().endpoint is None
            },
    {
        let config = S3Config {
            bucket: self.bucket.clone(),
            region: self.region.clone(),
            access_key,
            secret_key,
            session_token,
            endpoint: None,
        };
        match s3_open(config) {
            Ok((operator, config)) => {
                self.operator = operator;
                self.config = config;
                Ok(())
            },
            Err(e) => Err(S3Error::Backend(e)),
        }
    }

    /// The OpenDAL operator behind the adapter.
    pub fn operator(&self) -> (r: &opendal::Operator)
        ensures
            *r == self.op(),
    {
        &self.operator
    }

    /// The bucket name.
    pub fn bucket(&self) -> (r: &str)
        ensures
            r@ == self.bucket_name(),
    {
        self.bucket.as_str()
    }

    /// The region.
    pub fn region(&self) -> (r: &str)
        ensures
            r@ == self.region_name(),
    {
        self.region.as_str()
    }

    /// The display name.
    pub fn name(&self) -> (r: &str)
        ensures
            r@ == self.display_name(),
    {
        self.name.as_str()
    }

    /// The tier an S3 storage class stands for (see `tier_of_class`).
    pub fn detect_tier(storage_class: Option<&str>) -> (t: StorageTier)
        ensures
            t == tier_of_class(match storage_class {
                Some(c) => Some(c@),
                None => None,
            }),
    {
        match storage_class {
            Some(c) => {
                if same_text(c, "GLACIER_IR") || same_text(c, "GLACIER") || same_text(
                    c,
                    "DEEP_ARCHIVE",
                ) {
                    StorageTier::Cold
                } else {
                    StorageTier::Nearline
                }
            },
            None => StorageTier::Nearline,
        }
    }

    /// The record of the object at `path` from what OpenDAL reports of it: named after the
    /// path's last component (its key when it has none), in the tier its storage class gives
    /// (OpenDAL reports no class, so nearline), with the wait that tier implies.
    pub fn metadata_record(path: &str, stat: &ObjectEntry) -> (r: VirtualFile)
        ensures
            r.name@ == match file_name_of(path@) {
                Some(n) => n,
                None => key_of(path@),
            },
            r.path@ == path@,
            r.size == stat.size,
            r.is_directory == stat.is_dir,
            r.modified == stat.modified,
            r.tier == tier_of_class(None),
            !r.is_cached,
            r.can_warm,
            r.retrieval_time_estimate == Some(retrieval_estimate(tier_of_class(None))),
    {
        let name = match file_name(path) {
            Some(n) => n,
            None => to_key(path),
        };
        let tier = Self::detect_tier(None);
        let wait: u64 = match tier {
            StorageTier::Nearline => 0,
            _ => 5,
        };
        VirtualFile {
            name,
            path: path.to_string(),
            size: stat.size,
            is_directory: stat.is_dir,
            modified: stat.modified,
            tier,
            is_cached: false,
            can_warm: true,
            retrieval_time_estimate: Some(wait),
        }
    }

    /// The prefix under which the children of `path` are listed.
    pub fn list_prefix(path: &str) -> (r: String)
        ensures
            r@ == list_prefix_of(key_of(path@)),
    {
        let key = to_key(path);
        if key.as_str().is_empty() {
            key
        } else {
            proof {
                reveal_strlit("/");
            }
            key.concat("/")
        }
    }

    /// The URL of an object when OpenDAL cannot presign one: under the custom endpoint, or the
    /// bucket's virtual-hosted AWS address; the key loses its leading slashes.
    pub fn unsigned_object_url(&self, key: &str) -> (r: String)
        ensures
            r@ == match self.endpoint_url() {
                Some(e) => e + "/"@ + crate::text::trim_start_by(key@, crate::text::CharClass::Exactly('/')),
                None => "https://"@ + self.bucket_name() + ".s3."@ + self.region_name()
                    + ".amazonaws.com/"@ + crate::text::trim_start_by(key@, crate::text::CharClass::Exactly('/')),
            },
    {
        let k = crate::text::trim_start_class(key, crate::text::CharClass::Exactly('/'));
        match &self.endpoint {
            Some(e) => {
                let s = e.clone().concat("/");
                s.concat(k.as_str())
            },
            None => {
                let s = String::from_str("https://");
                let s = s.concat(self.bucket.as_str());
                let s = s.concat(".s3.");
                let s = s.concat(self.region.as_str());
                let s = s.concat(".amazonaws.com/");
                s.concat(k.as_str())
            },
        }
    }
}

/// The key under which a directory marker is written: the path's key and a `/`. The root has
/// no marker.
pub open spec fn marker_key_of(path: Seq<char>) -> Option<Seq<char>> {
    if key_of(path).len() == 0 {
        None
    } else {
        Some(key_of(path).push('/'))
    }
}

/// The key of the marker object for a directory, or `None` for the root, where no directory
/// can be made.
pub fn directory_marker(path: &str) -> (r: Option<String>)
    ensures
        match r {
            Some(k) => marker_key_of(path@) == Some(k@),
            None => marker_key_of(path@) is None,
        },
{
    let key = to_key(path);
    if key.as_str().is_empty() {
        None
    } else {
        proof {
            reveal_strlit("/");
            assert(key@ + "/"@ =~= key@.push('/'));
        }
        Some(key.concat("/"))
    }
}

/// How to remove a path and everything under it.
#[derive(Debug)]
pub enum RemovalPlan {
    /// Delete every one of these keys (the path is a directory).
    Directory(Vec<String>),
    /// Delete this one key.
    SingleObject(String),
}

/// The names listed under a directory key that belong to it: all of them at the root, else
/// those starting with the key and a `/`.
pub open spec fn names_under(names: Seq<Seq<char>>, key: Seq<char>) -> Seq<Seq<char>>
    decreases names.len(),
{
    if names.len() == 0 {
        names
    } else {
        let prev = names_under(names.drop_last(), key);
        if key.len() == 0 || has_prefix(names.last(), key.push('/')) {
            prev.push(names.last())
        } else {
            prev
        }
    }
}

/// Plans the removal of `path`: when something is listed under it or it has a directory
/// marker, every listed key under it and the marker; otherwise the object itself. A listing
/// that failed counts as empty.
pub fn plan_removal(path: &str, has_marker: bool, listed: Option<Vec<String>>) -> (r: RemovalPlan)
    ensures
        ({
            let key = key_of(path@);
            let marker = key.push('/');
            let under = match listed {
                Some(v) => names_under(views(v@), key),
                None => Seq::<Seq<char>>::empty(),
            };
            let keys = if has_marker && !under.contains(marker) {
                under.push(marker)
            } else {
                under
            };
            if under.len() > 0 || has_marker {
                r matches RemovalPlan::Directory(ks) && views(ks@) == keys
            } else {
                r matches RemovalPlan::SingleObject(k) && k@ == key
            }
        }),
{
    let key = to_key(path);
    proof {
        reveal_strlit("/");
    }
    let marker = key.clone().concat("/");
    assert(marker@ =~= key@.push('/'));
    let root = key.as_str().is_empty();
    let mut keys: Vec<String> = Vec::new();
    match listed {
        Some(names) => {
            let mut i: usize = 0;
            while i < names.len()
                invariant
                    i <= names@.len(),
                    root == (key@.len() == 0),
                    marker@ == key@.push('/'),
                    views(keys@) == names_under(views(names@.subrange(0, i as int)), key@),
                decreases names.len() - i,
            {
                let n = &names[i];
                proof {
                    assert(views(names@.subrange(0, i + 1)).drop_last() =~= views(
                        names@.subrange(0, i as int),
                    ));
                    assert(views(names@.subrange(0, i + 1)).last() == names@[i as int]@);
                }
                if root || starts_with(n.as_str(), marker.as_str()) {
                    keys.push(n.clone());
                    proof {
                        assert(views(keys@) =~= names_under(views(names@.subrange(0, i as int)), key@).push(names@[i as int]@));
                    }
                }
                i = i + 1;
            }
            proof {
                assert(names@.subrange(0, i as int) =~= names@);
            }
        },
        None => {
            assert(views(keys@) =~= Seq::<Seq<char>>::empty());
        },
    }
    let ghost under = views(keys@);
    let found = keys.len() > 0;
    if has_marker {
        let mut present = false;
        let mut j: usize = 0;
        while j < keys.len()
            invariant
                j <= keys@.len(),
                under == views(keys@),
                present == exists|m: int| 0 <= m < j && keys@[m]@ == marker@,
            decreases keys.len() - j,
        {
            if same_text(keys[j].as_str(), marker.as_str()) {
                present = true;
            }
            j = j + 1;
        }
        proof {
            if under.contains(marker@) {
                let m = choose|m: int| 0 <= m < under.len() && under[m] == marker@;
                assert(keys@[m]@ == marker@);
            }
            if present {
                let m = choose|m: int| 0 <= m < j && keys@[m]@ == marker@;
                assert(under[m] == marker@);
            }
        }
        if !present {
            keys.push(marker);
            assert(views(keys@) =~= under.push(key@.push('/')));
        }
        return RemovalPlan::Directory(keys);
    }
    if found {
        RemovalPlan::Directory(keys)
    } else {
        RemovalPlan::SingleObject(key)
    }
}

/// Whether a removal of many keys failed: every delete failed, and there was at least one.
pub fn removal_failed(failed: &Vec<bool>) -> (r: bool)
    ensures
        r == (failed@.len() > 0 && forall|k: int| 0 <= k < failed@.len() ==> failed@[k]),
{
    let mut i: usize = 0;
    while i < failed.len()
        invariant
            i <= failed@.len(),
            forall|k: int| 0 <= k < i ==> failed@[k],
        decreases failed.len() - i,
    {
        if !failed[i] {
            return false;
        }
        i = i + 1;
    }
    failed.len() > 0
}

/// Why a delete failed, as the error text shows it.
#[derive(Clone, Copy, PartialEq, Eq, Debug, Structural)]
pub enum DeleteFailure {
    /// The key looks like a part of an unfinished multipart upload.
    OrphanedPart,
    AccessDenied,
    /// The object is not there; the delete counts as done.
    AlreadyGone,
    /// The object sits in a Glacier class and must be restored first.
    NeedsRestore,
    /// The bucket keeps versions.
    Versioning,
    Other,
}

/// The failure a delete error stands for. Part files are told apart first; the versioning
/// case is only told apart for single deletes (`rm`), not inside a tree removal.
pub open spec fn delete_failure_of(key: Seq<char>, error: Seq<char>, single: bool) -> DeleteFailure {
    let e = lowercase(error);
    if contains_seq(key, ".part"@) {
        DeleteFailure::OrphanedPart
    } else if contains_seq(e, "accessdenied"@) || contains_seq(e, "403"@) {
        DeleteFailure::AccessDenied
    } else if contains_seq(e, "nosuchkey"@) || contains_seq(e, "404"@) {
        DeleteFailure::AlreadyGone
    } else if contains_seq(e, "glacier"@) || contains_seq(e, "restore"@) || contains_seq(
        e,
        "invalidobjectstate"@,
    ) {
        DeleteFailure::NeedsRestore
    } else if single && (contains_seq(e, "version"@) || contains_seq(e, "versionid"@)) {
        DeleteFailure::Versioning
    } else {
        DeleteFailure::Other
    }
}

/// Classifies a failed delete of `key` (see `delete_failure_of`).
pub fn classify_delete_failure(key: &str, error: &str, single: bool) -> (r: DeleteFailure)
    ensures
        r == delete_failure_of(key@, error@, single),
{
    let lower = to_lowercase(error);
    let e = lower.as_str();
    if contains(key, ".part") {
        DeleteFailure::OrphanedPart
    } else if contains(e, "accessdenied") || contains(e, "403") {
        DeleteFailure::AccessDenied
    } else if contains(e, "nosuchkey") || contains(e, "404") {
        DeleteFailure::AlreadyGone
    } else if contains(e, "glacier") || contains(e, "restore") || contains(e, "invalidobjectstate") {
        DeleteFailure::NeedsRestore
    } else if single && (contains(e, "version") || contains(e, "versionid")) {
        DeleteFailure::Versioning
    } else {
        DeleteFailure::Other
    }
}

/// The message of a failed delete of `key` in `bucket` with error `e`, of the given kind.
pub open spec fn delete_failure_message(bucket: Seq<char>, key: Seq<char>, e: Seq<char>, kind: DeleteFailure) -> Seq<
    char,
> {
    let head = "Failed to delete S3 object '"@ + key + "': "@ + e;
    match kind {
        DeleteFailure::OrphanedPart => head
            + " - This appears to be an orphaned multipart upload part. Orphaned parts from failed uploads cannot be deleted with s3:DeleteObject. They must be cleaned up by aborting the incomplete multipart upload using s3:AbortMultipartUpload. Check for incomplete multipart uploads with: aws s3api list-multipart-uploads --bucket "@
            + bucket + ". Then abort them with: aws s3api abort-multipart-upload --bucket "@ + bucket
            + " --key "@ + key + " --upload-id <id>"@,
        DeleteFailure::AccessDenied => head
            + " - Access Denied. Check IAM permissions: - s3:DeleteObject on the object - s3:ListBucket on the bucket - If bucket has versioning enabled, also need s3:DeleteObjectVersion - If bucket has MFA delete enabled, MFA token is required"@,
        DeleteFailure::NeedsRestore => head
            + " - Objects in Glacier storage classes (GLACIER, DEEP_ARCHIVE) must be restored before deletion. GLACIER_IR objects should be deletable directly. Check IAM permissions: s3:DeleteObject, s3:RestoreObject."@,
        DeleteFailure::Versioning => head
            + " - This bucket may have versioning enabled. Try deleting with version ID or disable versioning. Check IAM permissions: s3:DeleteObjectVersion."@,
        _ => head,
    }
}

/// The outcome of deleting the single object `key` of `bucket`, from the error the delete
/// reported, if any: success when there was none or the object was already gone (see
/// `delete_failure_of`; a part file's delete fails whatever the error), else the failure's
/// message (see `delete_failure_message`). So deleting an object twice succeeds twice.
pub fn object_delete_outcome(bucket: &str, key: &str, error: &Option<String>, single: bool) -> (r: Result<
    (),
    String,
>)
    ensures
        match error {
            None => r is Ok,
            Some(e) => match delete_failure_of(key@, e@, single) {
                DeleteFailure::AlreadyGone => r is Ok,
                kind => r matches Err(m) && m@ == delete_failure_message(bucket@, key@, e@, kind),
            },
        },
{
    match error {
        None => Ok(()),
        Some(e) => {
            let kind = classify_delete_failure(key, e.as_str(), single);
            let head = String::from_str("Failed to delete S3 object '").concat(key).concat("': ").concat(e.as_str());
            match kind {
                DeleteFailure::AlreadyGone => Ok(()),
                DeleteFailure::OrphanedPart => Err(head.concat(
                    " - This appears to be an orphaned multipart upload part. Orphaned parts from failed uploads cannot be deleted with s3:DeleteObject. They must be cleaned up by aborting the incomplete multipart upload using s3:AbortMultipartUpload. Check for incomplete multipart uploads with: aws s3api list-multipart-uploads --bucket ",
                ).concat(bucket).concat(". Then abort them with: aws s3api abort-multipart-upload --bucket ").concat(
                    bucket,
                ).concat(" --key ").concat(key).concat(" --upload-id <id>")),
                DeleteFailure::AccessDenied => Err(head.concat(
                    " - Access Denied. Check IAM permissions: - s3:DeleteObject on the object - s3:ListBucket on the bucket - If bucket has versioning enabled, also need s3:DeleteObjectVersion - If bucket has MFA delete enabled, MFA token is required",
                )),
                DeleteFailure::NeedsRestore => Err(head.concat(
                    " - Objects in Glacier storage classes (GLACIER, DEEP_ARCHIVE) must be restored before deletion. GLACIER_IR objects should be deletable directly. Check IAM permissions: s3:DeleteObject, s3:RestoreObject.",
                )),
                DeleteFailure::Versioning => Err(head.concat(
                    " - This bucket may have versioning enabled. Try deleting with version ID or disable versioning. Check IAM permissions: s3:DeleteObjectVersion.",
                )),
                DeleteFailure::Other => Err(head),
            }
        },
    }
}

/// Whether a delete inside a tree removal failed only because the object was already gone.
pub fn delete_already_gone(error: &str) -> (r: bool)
    ensures
        r == ({
            let e = lowercase(error@);
            contains_seq(e, "nosuchkey"@) || contains_seq(e, "404"@) || contains_seq(e, "not found"@)
        }),
{
    let lower = to_lowercase(error);
    let e = lower.as_str();
    contains(e, "nosuchkey") || contains(e, "404") || contains(e, "not found")
}

/// Whether a delete's error says the object was already gone.
pub open spec fn already_gone(error: Seq<char>) -> bool {
    let e = lowercase(error);
    contains_seq(e, "nosuchkey"@) || contains_seq(e, "404"@) || contains_seq(e, "not found"@)
}

/// Whether the delete with this outcome failed: it reported an error other than the object
/// being gone already.
pub open spec fn delete_failed(outcome: Option<String>) -> bool {
    match outcome {
        Some(e) => !already_gone(e@),
        None => false,
    }
}

/// The message of a tree removal of `key` whose `n` deletes all failed, the first with `first`.
pub open spec fn tree_removal_message(key: Seq<char>, n: nat, first: Seq<char>) -> Seq<char> {
    "Failed to delete directory '"@ + key + "': All "@ + decimal(n) + " delete operations failed. First error: "@ + first
}

/// The outcome of removing the tree `key` from the outcomes of its deletes (each the error it
/// reported, if any): it fails exactly when there was a delete and every delete failed for
/// another reason than the object being gone already; some deletes failing is a partial
/// removal, which succeeds.
pub fn tree_removal_outcome(key: &str, outcomes: &Vec<Option<String>>) -> (r: Result<(), String>)
    ensures
        r is Err <==> (outcomes@.len() > 0 && forall|k: int| 0 <= k < outcomes@.len() ==> delete_failed(#[trigger] outcomes@[k])),
        r matches Err(m) ==> (outcomes@[0] matches Some(e) && m@ == tree_removal_message(key@, outcomes@.len(), e@)),
{
    let mut failed: Vec<bool> = Vec::new();
    let mut i: usize = 0;
    while i < outcomes.len()
        invariant
            i <= outcomes@.len(),
            failed@.len() == i,
            forall|k: int| 0 <= k < i ==> failed@[k] == delete_failed(#[trigger] outcomes@[k]),
        decreases outcomes.len() - i,
    {
        let f = match &outcomes[i] {
            Some(e) => !delete_already_gone(e.as_str()),
            None => false,
        };
        failed.push(f);
        i = i + 1;
    }
    if removal_failed(&failed) {
        assert(failed@[0]);
        let first = match &outcomes[0] {
            Some(e) => e.clone(),
            None => String::new(),
        };
        let n = to_decimal(outcomes.len() as u64);
        let m = String::from_str("Failed to delete directory '").concat(key).concat("': All ").concat(
            n.as_str(),
        ).concat(" delete operations failed. First error: ").concat(first.as_str());
        Err(m)
    } else {
        proof {
            if outcomes@.len() > 0 && forall|k: int| 0 <= k < outcomes@.len() ==> delete_failed(#[trigger] outcomes@[k]) {
                assert forall|k: int| 0 <= k < failed@.len() implies failed@[k] by {
                    assert(delete_failed(outcomes@[k]));
                }
            }
        }
        Ok(())
    }
}

/// Why writing a directory marker failed.
#[derive(Clone, Copy, PartialEq, Eq, Debug, Structural)]
pub enum MkdirFailure {
    /// The path already is a directory; making it counts as done.
    AlreadyDirectory,
    PermissionDenied,
    Other,
}

/// The failure a marker-write error stands for.
pub open spec fn mkdir_failure_of(error: Seq<char>) -> MkdirFailure {
    let e = lowercase(error);
    if contains_seq(e, "isadirectory"@) || contains_seq(e, "is a directory"@) || contains_seq(
        e,
        "write path is a directory"@,
    ) {
        MkdirFailure::AlreadyDirectory
    } else if contains_seq(e, "accessdenied"@) || contains_seq(e, "forbidden"@) || contains_seq(
        e,
        "403"@,
    ) || contains_seq(error, "PermissionDenied"@) {
        MkdirFailure::PermissionDenied
    } else {
        MkdirFailure::Other
    }
}

/// Classifies a failed marker write (see `mkdir_failure_of`).
pub fn classify_mkdir_failure(error: &str) -> (r: MkdirFailure)
    ensures
        r == mkdir_failure_of(error@),
{
    let lower = to_lowercase(error);
    let e = lower.as_str();
    if contains(e, "isadirectory") || contains(e, "is a directory") || contains(
        e,
        "write path is a directory",
    ) {
        MkdirFailure::AlreadyDirectory
    } else if contains(e, "accessdenied") || contains(e, "forbidden") || contains(e, "403")
        || contains(error, "PermissionDenied") {
        MkdirFailure::PermissionDenied
    } else {
        MkdirFailure::Other
    }
}

/// Whether an error from an existence check or a stat is a permission problem.
pub fn is_permission_error(error: &str) -> (r: bool)
    ensures
        r == ({
            let e = lowercase(error@);
            contains_seq(e, "permissiondenied"@) || contains_seq(e, "403"@) || contains_seq(
                e,
                "accessdenied"@,
            )
        }),
{
    let lower = to_lowercase(error);
    let e = lower.as_str();
    contains(e, "permissiondenied") || contains(e, "403") || contains(e, "accessdenied")
}

/// What a failed listing's error text points at.
#[derive(Clone, Copy, PartialEq, Eq, Debug)]
pub struct ListFailure {
    pub expired_token: bool,
    pub invalid_credentials: bool,
    pub invalid_session_token: bool,
    pub access_denied: bool,
    pub missing_bucket: bool,
    pub wrong_region: bool,
}

/// Reads a failed listing's error: its text and its debug form.
pub fn diagnose_list_failure(text: &str, debug: &str) -> (r: ListFailure)
    ensures
        r.expired_token == (contains_seq(text@, "ExpiredToken"@) || contains_seq(
            debug@,
            "ExpiredToken"@,
        )),
        r.invalid_credentials == (contains_seq(text@, "InvalidToken"@) || contains_seq(
            text@,
            "InvalidAccessKeyId"@,
        ) || contains_seq(text@, "SignatureDoesNotMatch"@)),
        r.invalid_session_token == contains_seq(text@, "InvalidToken"@),
        r.access_denied == (contains_seq(text@, "AccessDenied"@) || contains_seq(
            text@,
            "Forbidden"@,
        )),
        r.missing_bucket == (contains_seq(text@, "NoSuchBucket"@) || contains_seq(
            text@,
            "NotFound"@,
        )),
        r.wrong_region == (contains_seq(text@, "IllegalLocationConstraintException"@)
            || contains_seq(text@, "InvalidLocationConstraint"@)),
{
    ListFailure {
        expired_token: contains(text, "ExpiredToken") || contains(debug, "ExpiredToken"),
        invalid_credentials: contains(text, "InvalidToken") || contains(text, "InvalidAccessKeyId")
            || contains(text, "SignatureDoesNotMatch"),
        invalid_session_token: contains(text, "InvalidToken"),
        access_denied: contains(text, "AccessDenied") || contains(text, "Forbidden"),
        missing_bucket: contains(text, "NoSuchBucket") || contains(text, "NotFound"),
        wrong_region: contains(text, "IllegalLocationConstraintException") || contains(
            text,
            "InvalidLocationConstraint",
        ),
    }
}

/// Why a copy between two paths cannot start.
#[derive(Clone, Copy, PartialEq, Eq, Debug, Structural)]
pub enum CopyKeyProblem {
    EmptySource,
    EmptyDestination,
}

/// Checks the keys of a copy: neither may be the root.
pub fn check_copy_keys(from: &str, to: &str) -> (r: Result<(String, String), CopyKeyProblem>)
    ensures
        key_of(from@).len() == 0 ==> r == Err::<(String, String), _>(CopyKeyProblem::EmptySource),
        key_of(from@).len() != 0 && key_of(to@).len() == 0 ==> r == Err::<(String, String), _>(
            CopyKeyProblem::EmptyDestination,
        ),
        key_of(from@).len() != 0 && key_of(to@).len() != 0 ==> (r matches Ok((a, b)) && a@
            == key_of(from@) && b@ == key_of(to@)),
{
    let a = to_key(from);
    let b = to_key(to);
    if a.as_str().is_empty() {
        return Err(CopyKeyProblem::EmptySource);
    }
    if b.as_str().is_empty() {
        return Err(CopyKeyProblem::EmptyDestination);
    }
    Ok((a, b))
}

/// The number of 512-byte blocks that `size` bytes take, rounded up.
pub fn block_count(size: u64) -> (r: u64)
    ensures
        r == (size + 511) / 512,
{
    size / 512 + if size % 512 == 0 { 0 } else { 1 }
}

} // verus!
