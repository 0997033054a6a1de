//! The local file system adapter: where virtual paths land on disk.

use vstd::prelude::*;
use crate::domain::{StorageTier, VirtualFile};
use crate::listing::{rank_sort, sort_local_listing};
use crate::clipboard::{copy_name, path_within, split_ext, within, UniqueNameSearch};
use crate::paths::{file_name, file_name_of, is_root_or_empty, join_path, joined, root_or_empty};
use crate::text::{chars_of, rfind_char, same_text, string_of_range, split_any, split_chars, trim_start_by, trim_start_class, CharClass};

verus! {

/// The components a path keeps after its root: the pieces between slashes that are neither
/// empty nor `.`.
pub open spec fn normal_parts(ps: Seq<Seq<char>>) -> Seq<Seq<char>>
    decreases ps.len(),
{
    if ps.len() == 0 {
        ps
    } else if ps.last().len() == 0 || ps.last() == seq!['.'] {
        normal_parts(ps.drop_last())
    } else {
        normal_parts(ps.drop_last()).push(ps.last())
    }
}

/// The components of an absolute path after its root.
pub open spec fn components_after_root(p: Seq<char>) -> Seq<Seq<char>> {
    normal_parts(split_any(p.drop_first(), '/', '/'))
}

/// Whether the absolute path `p` lies under `base`, component by component
/// (`Path::starts_with`): an empty `base` covers everything, a relative one nothing.
pub open spec fn under_base(p: Seq<char>, base: Seq<char>) -> bool {
    base.len() == 0 || (base[0] == '/' && {
        let b = components_after_root(base);
        let c = components_after_root(p);
        b.len() <= c.len() && c.subrange(0, b.len() as int) == b
    })
}

/// Whether a character separates path components on Unix (`/`) or Windows (`\`).
pub open spec fn is_separator(c: char) -> bool {
    c == '/' || c == '\\'
}

/// `s` without its leading separators, slashes and backslashes in any mix.
pub open spec fn trim_separators(s: Seq<char>) -> Seq<char>
    decreases s.len(),
{
    if s.len() > 0 && is_separator(s[0]) {
        trim_separators(s.drop_first())
    } else {
        s
    }
}

/// Where a virtual path lands: an absolute path already under the base as it is; otherwise the
/// path without its leading separators (slashes and backslashes in any mix), joined to the
/// base (the base itself when nothing is left).
pub open spec fn resolved(base: Seq<char>, path: Seq<char>) -> Seq<char> {
    if path.len() > 0 && path[0] == '/' && under_base(path, base) {
        path
    } else {
        let n = trim_separators(path);
        if n.len() == 0 {
            base
        } else {
            joined(base, n)
        }
    }
}

proof fn lemma_split_any_nonempty(s: Seq<char>)
    ensures
        split_any(s, '/', '/').len() >= 1,
    decreases s.len(),
{
    if s.len() > 0 {
        lemma_split_any_nonempty(s.drop_last());
    }
}

/// Splitting `x`, a slash and `y` at slashes gives the pieces of `x` and then those of `y`.
proof fn lemma_split_concat(x: Seq<char>, y: Seq<char>)
    ensures
        split_any(x + seq!['/'] + y, '/', '/') == split_any(x, '/', '/') + split_any(y, '/', '/'),
    decreases y.len(),
{
    let s = x + seq!['/'] + y;
    if y.len() == 0 {
        assert(s.drop_last() =~= x);
        assert(y =~= Seq::<char>::empty());
        assert(split_any(x, '/', '/').push(Seq::<char>::empty()) =~= split_any(x, '/', '/') + seq![Seq::<char>::empty()]);
    } else {
        let y2 = y.drop_last();
        lemma_split_concat(x, y2);
        lemma_split_any_nonempty(y2);
        assert(s.drop_last() =~= x + seq!['/'] + y2);
        assert(s.last() == y.last());
        let a = split_any(x, '/', '/');
        let b = split_any(y2, '/', '/');
        if y.last() == '/' {
            assert((a + b).push(Seq::<char>::empty()) =~= a + b.push(Seq::<char>::empty()));
        } else {
            let p = a + b;
            assert(p.update(p.len() - 1, p.last().push(y.last())) =~= a + b.update(
                b.len() - 1,
                b.last().push(y.last()),
            ));
        }
    }
}

/// Keeping the components of two lists of pieces keeps those of each, in order.
proof fn lemma_normal_parts_concat(a: Seq<Seq<char>>, b: Seq<Seq<char>>)
    ensures
        normal_parts(a + b) == normal_parts(a) + normal_parts(b),
    decreases b.len(),
{
    if b.len() == 0 {
        assert(a + b =~= a);
        assert(normal_parts(a) + normal_parts(b) =~= normal_parts(a));
    } else {
        lemma_normal_parts_concat(a, b.drop_last());
        assert((a + b).drop_last() =~= a + b.drop_last());
        assert((a + b).last() == b.last());
        if !(b.last().len() == 0 || b.last() == seq!['.']) {
            assert((normal_parts(a) + normal_parts(b.drop_last())).push(b.last()) =~= normal_parts(a)
                + normal_parts(b.drop_last()).push(b.last()));
        }
    }
}

proof fn lemma_trimmed_first(s: Seq<char>)
    ensures
        trim_separators(s).len() > 0 ==> !is_separator(trim_separators(s)[0]),
    decreases s.len(),
{
    if s.len() > 0 && is_separator(s[0]) {
        lemma_trimmed_first(s.drop_first());
    }
}

proof fn lemma_under_itself(base: Seq<char>)
    requires
        base.len() > 0,
        base[0] == '/',
    ensures
        under_base(base, base),
{
    let b = components_after_root(base);
    assert(b.subrange(0, b.len() as int) =~= b);
}

/// A name without a leading slash joined to an absolute base lies under the base.
proof fn lemma_join_under(base: Seq<char>, n: Seq<char>)
    requires
        base.len() > 0,
        base[0] == '/',
        n.len() > 0,
        n[0] != '/',
    ensures
        under_base(joined(base, n), base),
{
    let r = joined(base, n);
    let bp = base.drop_first();
    let e = Seq::<char>::empty();
    let cb = components_after_root(base);
    let cr = components_after_root(r);
    if base.last() == '/' {
        assert(r == base + n);
        if base.len() == 1 {
            assert(bp =~= e);
            assert(split_any(e, '/', '/') == seq![e]);
            assert(seq![e].drop_last() =~= Seq::<Seq<char>>::empty());
            assert(normal_parts(seq![e]) == normal_parts(Seq::<Seq<char>>::empty()));
            assert(cb =~= Seq::<Seq<char>>::empty());
            assert(cr.subrange(0, 0) =~= cb);
        } else {
            let x = bp.drop_last();
            assert(bp =~= x + seq!['/'] + e);
            lemma_split_concat(x, e);
            assert(split_any(e, '/', '/') == seq![e]);
            assert(seq![e].drop_last() =~= Seq::<Seq<char>>::empty());
            assert(normal_parts(seq![e]) == normal_parts(Seq::<Seq<char>>::empty()));
            lemma_normal_parts_concat(split_any(x, '/', '/'), seq![e]);
            assert(normal_parts(split_any(x, '/', '/')) + normal_parts(seq![e]) =~= normal_parts(
                split_any(x, '/', '/'),
            ));
            assert(r.drop_first() =~= x + seq!['/'] + n);
            lemma_split_concat(x, n);
            lemma_normal_parts_concat(split_any(x, '/', '/'), split_any(n, '/', '/'));
            assert(cr.subrange(0, cb.len() as int) =~= cb);
        }
    } else {
        assert(r == base + seq!['/'] + n);
        assert(r.drop_first() =~= bp + seq!['/'] + n);
        lemma_split_concat(bp, n);
        lemma_normal_parts_concat(split_any(bp, '/', '/'), split_any(n, '/', '/'));
        assert(cr.subrange(0, cb.len() as int) =~= cb);
    }
}

/// Under an absolute base, every path resolves to a path under the base.
pub proof fn lemma_resolved_under_base(base: Seq<char>, path: Seq<char>)
    ensures
        base.len() > 0 && base[0] == '/' ==> under_base(resolved(base, path), base),
{
    if base.len() > 0 && base[0] == '/' {
        if !(path.len() > 0 && path[0] == '/' && under_base(path, base)) {
            let n = trim_separators(path);
            lemma_trimmed_first(path);
            if n.len() == 0 {
                lemma_under_itself(base);
            } else {
                lemma_join_under(base, n);
            }
        }
    }
}

fn parts_after_root(p: &str) -> (r: Vec<Vec<char>>)
    requires
        p@.len() > 0,
    ensures
        r@.len() == components_after_root(p@).len(),
        forall|k: int| 0 <= k < r@.len() ==> (#[trigger] r@[k])@ == components_after_root(p@)[k],
{
    let v = chars_of(p);
    let rest = crate::text::string_of_range(v.as_slice(), 1, v.len());
    proof {
        assert(v@.subrange(1, v@.len() as int) =~= p@.drop_first());
    }
    let ps = split_chars(rest.as_str(), '/', '/');
    let ghost pv = split_any(rest@, '/', '/');
    let mut out: Vec<Vec<char>> = Vec::new();
    let mut i: usize = 0;
    while i < ps.len()
        invariant
            i <= ps@.len(),
            ps@.len() == pv.len(),
            forall|k: int| 0 <= k < ps@.len() ==> (#[trigger] ps@[k])@ == pv[k],
            out@.len() == normal_parts(pv.subrange(0, i as int)).len(),
            forall|k: int| 0 <= k < out@.len() ==> (#[trigger] out@[k])@ == normal_parts(pv.subrange(0, i as int))[k],
        decreases ps.len() - i,
    {
        proof {
            assert(pv.subrange(0, i + 1).drop_last() =~= pv.subrange(0, i as int));
            assert(pv.subrange(0, i + 1).last() == pv[i as int]);
        }
        let c = chars_of(ps[i].as_str());
        let dot = c.len() == 1 && c[0] == '.';
        proof {
            if c@ == seq!['.'] {
                assert(dot);
            }
            if dot {
                assert(c@ =~= seq!['.']);
            }
        }
        if c.len() != 0 && !dot {
            out.push(c);
        }
        i = i + 1;
    }
    proof {
        assert(pv.subrange(0, i as int) =~= pv);
    }
    out
}

fn same_chars(a: &Vec<char>, b: &Vec<char>) -> (r: bool)
    ensures
        r == (a@ == b@),
{
    if a.len() != b.len() {
        return false;
    }
    let r = crate::text::matches_at(a.as_slice(), b.as_slice(), 0);
    assert(a@.subrange(0, b@.len() as int) =~= a@);
    r
}

/// Whether the absolute path `p` lies under `base` (see `under_base`).
pub fn is_under_base(p: &str, base: &str) -> (r: bool)
    requires
        p@.len() > 0,
    ensures
        r == under_base(p@, base@),
{
    let bv = chars_of(base);
    if bv.len() == 0 {
        return true;
    }
    if bv[0] != '/' {
        return false;
    }
    let b = parts_after_root(base);
    let c = parts_after_root(p);
    if b.len() > c.len() {
        return false;
    }
    let ghost bs = components_after_root(base@);
    let ghost cs = components_after_root(p@);
    let mut k: usize = 0;
    while k < b.len()
        invariant
            k <= b@.len() <= c@.len(),
            base@.len() > 0 && base@[0] == '/',
            bs == components_after_root(base@),
            cs == components_after_root(p@),
            b@.len() == bs.len(),
            c@.len() == cs.len(),
            forall|j: int| 0 <= j < b@.len() ==> (#[trigger] b@[j])@ == bs[j],
            forall|j: int| 0 <= j < c@.len() ==> (#[trigger] c@[j])@ == cs[j],
            forall|j: int| 0 <= j < k ==> bs[j] == cs[j],
        decreases b.len() - k,
    {
        if !same_chars(&b[k], &c[k]) {
            proof {
                assert(cs.subrange(0, bs.len() as int)[k as int] != bs[k as int]);
                assert(cs.subrange(0, bs.len() as int) != bs);
            }
            return false;
        }
        k = k + 1;
    }
    assert(cs.subrange(0, bs.len() as int) =~= bs);
    true
}

/// A folder of the local file system seen as a storage source.
pub struct LocalStorageAdapter {
    base_path: String,
    name: String,
}

impl LocalStorageAdapter {
    /// The folder the source is rooted at.
    pub closed spec fn base(&self) -> Seq<char> {
        self.base_path@
    }

    /// The display name.
    pub closed spec fn display_name(&self) -> Seq<char> {
        self.name@
    }

    /// A source rooted at `base_path`.
    pub fn new(base_path: String, name: String) -> (r: Self)
        ensures
            r.base() == base_path@,
            r.display_name() == name@,
    {
        LocalStorageAdapter { base_path, name }
    }

    /// The display name.
    pub fn name(&self) -> (r: &str)
        ensures
            r@ == self.display_name(),
    {
        self.name.as_str()
    }

    /// The folder the source is rooted at.
    pub fn base_path(&self) -> (r: &str)
        ensures
            r@ == self.base(),
    {
        self.base_path.as_str()
    }

    /// Where a virtual path lands on disk (see `resolved`). Under an absolute base, every
    /// path lands under the base.
    pub fn resolve_path(&self, path: &str) -> (r: String)
        ensures
            r@ == resolved(self.base(), path@),
            self.base().len() > 0 && self.base()[0] == '/' ==> under_base(r@, self.base()),
    {
        proof {
            lemma_resolved_under_base(self.base(), path@);
        }
        let v = chars_of(path);
        if v.len() > 0 && v[0] == '/' && is_under_base(path, self.base_path.as_str()) {
            return String::from_str(path);
        }
        let mut i: usize = 0;
        assert(v@.subrange(0, v@.len() as int) =~= v@);
        while i < v.len() && (v[i] == '/' || v[i] == '\\')
            invariant
                i <= v@.len(),
                v@ == path@,
                trim_separators(path@) == trim_separators(v@.subrange(i as int, v@.len() as int)),
            decreases v.len() - i,
        {
            proof {
                let t = v@.subrange(i as int, v@.len() as int);
                assert(t.drop_first() =~= v@.subrange(i + 1, v@.len() as int));
            }
            i = i + 1;
        }
        proof {
            let t = v@.subrange(i as int, v@.len() as int);
            if t.len() > 0 {
                assert(t[0] == v@[i as int]);
            }
        }
        let n = crate::text::string_of_range(v.as_slice(), i, v.len());
        if n.as_str().is_empty() {
            self.base_path.clone()
        } else {
            join_path(self.base_path.as_str(), n.as_str())
        }
    }
}

/// The virtual path of the entry `name` listed in the folder `dir`: `/name` at the root (or
/// with no folder), else `name` joined to the folder.
pub open spec fn local_child(dir: Seq<char>, name: Seq<char>) -> Seq<char> {
    if is_root_or_empty(dir) {
        joined(seq!['/'], name)
    } else {
        joined(dir, name)
    }
}

/// The virtual path of a listed entry (see `local_child`).
pub fn local_child_path(dir: &str, name: &str) -> (r: String)
    ensures
        r@ == local_child(dir@, name@),
{
    if root_or_empty(dir) {
        proof {
            reveal_strlit("/");
            assert("/"@ =~= seq!['/']);
        }
        join_path("/", name)
    } else {
        join_path(dir, name)
    }
}

/// One entry of a local folder as the file system reports it: its name, whether it is a
/// folder, its length, and when it was last modified (seconds since the Unix epoch).
pub struct LocalEntry {
    pub name: String,
    pub is_dir: bool,
    pub len: u64,
    pub modified: Option<i64>,
}

/// What looking up the folder to list found.
pub enum LocalLookup {
    /// Nothing is there (it may not have been made yet).
    Missing,
    /// Something that is not a folder is there.
    NotADirectory,
    /// A folder is there.
    Directory,
    /// The file system refused to answer.
    Unreadable,
}

/// Why a local folder could not be listed; each holds the resolved path.
#[derive(Debug)]
pub enum LocalListError {
    NotADirectory { path: String },
    Unreadable { path: String },
}

impl LocalListError {
    /// The message the adapter reports (the path quoted).
    pub fn message(&self) -> (r: String)
        ensures
            r@ == match self {
                LocalListError::NotADirectory { path } => "Path is not a directory: \""@ + path@ + "\""@,
                LocalListError::Unreadable { path } => "Failed to read directory: \""@ + path@ + "\""@,
            },
    {
        match self {
            LocalListError::NotADirectory { path } => String::from_str("Path is not a directory: \"").concat(
                path.as_str(),
            ).concat("\""),
            LocalListError::Unreadable { path } => String::from_str("Failed to read directory: \"").concat(
                path.as_str(),
            ).concat("\""),
        }
    }
}

/// Whether `f` is how the entry `e` of the folder `dir` is listed: under its name, at
/// `local_child(dir, name)`, with its length (none for a folder), its modification time, in
/// the hot tier, not cached and with nothing to warm.
pub open spec fn lists_entry(dir: Seq<char>, e: LocalEntry, f: VirtualFile) -> bool {
    &&& f.name@ == e.name@
    &&& f.path@ == local_child(dir, e.name@)
    &&& f.size == if e.is_dir { 0 } else { e.len }
    &&& f.is_directory == e.is_dir
    &&& f.modified == e.modified
    &&& f.tier == StorageTier::Hot
    &&& !f.is_cached
    &&& !f.can_warm
    &&& f.retrieval_time_estimate is None
}

/// Whether `fs` lists the entries `es` of `dir` one for one, in their order.
pub open spec fn lists_entries(dir: Seq<char>, es: Seq<LocalEntry>, fs: Seq<VirtualFile>) -> bool {
    &&& fs.len() == es.len()
    &&& forall|k: int| 0 <= k < es.len() ==> lists_entry(dir, #[trigger] es[k], fs[k])
}

/// The files for the entries of the folder `dir` (see `lists_entry`), in their order.
pub fn local_files(dir: &str, entries: Vec<LocalEntry>) -> (r: Vec<VirtualFile>)
    ensures
        lists_entries(dir@, entries@, r@),
{
    let mut out: Vec<VirtualFile> = Vec::new();
    let mut i: usize = 0;
    while i < entries.len()
        invariant
            i <= entries@.len(),
            out@.len() == i,
            forall|k: int| 0 <= k < i ==> lists_entry(dir@, #[trigger] entries@[k], out@[k]),
        decreases entries.len() - i,
    {
        let e = &entries[i];
        let f = VirtualFile {
            name: e.name.clone(),
            path: local_child_path(dir, e.name.as_str()),
            size: if e.is_dir { 0 } else { e.len },
            is_directory: e.is_dir,
            modified: e.modified,
            tier: StorageTier::Hot,
            is_cached: false,
            can_warm: false,
            retrieval_time_estimate: None,
        };
        out.push(f);
        i = i + 1;
    }
    out
}

/// Lists the local folder at the virtual path `dir`, resolved to `full_path` on disk, from
/// what looking it up found and the entries read from it: nothing when it is missing, an
/// error when it is not a folder or could not be read, and otherwise its entries, folders
/// first, then by name as it is (see `rank_sort`).
pub fn list_local(dir: &str, full_path: &str, lookup: LocalLookup, entries: Vec<LocalEntry>) -> (r:
    Result<Vec<VirtualFile>, LocalListError>)
    ensures
        match lookup {
            LocalLookup::Missing => r matches Ok(v) && v@.len() == 0,
            LocalLookup::NotADirectory => r matches Err(LocalListError::NotADirectory { path }) && path@
                == full_path@,
            LocalLookup::Unreadable => r matches Err(LocalListError::Unreadable { path }) && path@
                == full_path@,
            LocalLookup::Directory => r matches Ok(v) && exists|fs: Seq<VirtualFile>|
                lists_entries(dir@, entries@, fs) && v@ == rank_sort(fs, false),
        },
{
    match lookup {
        LocalLookup::Missing => Ok(Vec::new()),
        LocalLookup::NotADirectory => Err(LocalListError::NotADirectory { path: full_path.to_string() }),
        LocalLookup::Unreadable => Err(LocalListError::Unreadable { path: full_path.to_string() }),
        LocalLookup::Directory => {
            let files = local_files(dir, entries);
            let ghost fs = files@;
            let sorted = sort_local_listing(files);
            assert(lists_entries(dir@, entries@, fs) && sorted@ == rank_sort(fs, false));
            Ok(sorted)
        },
    }
}

/// The folder a path lies in and its name: what precedes its last `/` and what follows it;
/// none when it has no `/` or ends with one.
pub open spec fn folder_and_name(p: Seq<char>) -> Option<(Seq<char>, Seq<char>)> {
    if exists|i: int| 0 <= i < p.len() && p[i] == '/' {
        let i = choose|i: int| 0 <= i < p.len() && p[i] == '/' && forall|j: int| i < j < p.len() ==> p[j] != '/';
        if i + 1 < p.len() {
            Some((p.subrange(0, i), p.subrange(i + 1, p.len() as int)))
        } else {
            None
        }
    } else {
        None
    }
}

/// How a copy inside a local source starts.
pub enum LocalCopyStart {
    /// Source and destination differ: copy `from` to `to` (both resolved).
    Direct { from: String, to: String },
    /// Source and destination are the same: a free name is searched next to it, starting with
    /// `name copy.ext` (see `copy_name`).
    Rename { from: String, search: UniqueNameSearch },
    /// The path is copied onto itself and has no folder to put a copy in.
    Refused(String),
}

/// The most names a copy onto itself tries before giving up.
pub const LOCAL_COPY_NAME_TRIES: u32 = 101;

impl LocalStorageAdapter {
    /// Starts copying `from` to `to` inside the source (see `LocalCopyStart`).
    pub fn copy_start(&self, from: &str, to: &str) -> (r: LocalCopyStart)
        ensures
            resolved(self.base(), from@) != resolved(self.base(), to@) ==> (r matches LocalCopyStart::Direct {
                from: f,
                to: t,
            } && f@ == resolved(self.base(), from@) && t@ == resolved(self.base(), to@)),
            resolved(self.base(), from@) == resolved(self.base(), to@) ==> match folder_and_name(
                resolved(self.base(), to@),
            ) {
                None => r matches LocalCopyStart::Refused(m) && m@ == "Cannot copy file or folder to itself"@,
                Some((dir, name)) => r matches LocalCopyStart::Rename { from: f, search } && f@ == resolved(
                    self.base(),
                    from@,
                ) && search.dir() == dir && (search.stem_of(), search.ext_of()) == split_ext(name)
                    && search.tries() == 1 && search.current() == joined(
                    dir,
                    copy_name(split_ext(name).0, split_ext(name).1, 1),
                ),
            },
    {
        let f = self.resolve_path(from);
        let t = self.resolve_path(to);
        if !same_text(f.as_str(), t.as_str()) {
            return LocalCopyStart::Direct { from: f, to: t };
        }
        let v = chars_of(t.as_str());
        match rfind_char(v.as_slice(), '/') {
            Some(i) => {
                proof {
                    let p = v@;
                    let k = choose|k: int| 0 <= k < p.len() && p[k] == '/' && forall|j: int| k < j < p.len() ==> p[j] != '/';
                    if k < i {
                        assert(p[i as int] != '/');
                    } else if k > i {
                        assert(p[k] != '/');
                    }
                }
                if i + 1 < v.len() {
                    let dir = string_of_range(v.as_slice(), 0, i);
                    let name = string_of_range(v.as_slice(), i + 1, v.len());
                    let mut search = UniqueNameSearch::start(dir.as_str(), name.as_str());
                    let _ = search.next();
                    LocalCopyStart::Rename { from: f, search }
                } else {
                    LocalCopyStart::Refused(String::from_str("Cannot copy file or folder to itself"))
                }
            },
            None => LocalCopyStart::Refused(String::from_str("Cannot copy file or folder to itself")),
        }
    }
}

/// Moves a copy's name search on after its current name was found taken: an error once
/// `LOCAL_COPY_NAME_TRIES` names were taken, else the next name.
pub fn local_copy_name_taken(search: &mut UniqueNameSearch) -> (r: Result<(), String>)
    requires
        old(search).tries() <= LOCAL_COPY_NAME_TRIES,
    ensures
        old(search).tries() >= LOCAL_COPY_NAME_TRIES ==> (r matches Err(m) && m@
            == "Cannot generate unique name for copy"@) && *final(search) == *old(search),
        old(search).tries() < LOCAL_COPY_NAME_TRIES ==> r is Ok && final(search).tries() == old(
            search,
        ).tries() + 1 && final(search).dir() == old(search).dir() && final(search).stem_of() == old(
            search,
        ).stem_of() && final(search).ext_of() == old(search).ext_of() && final(search).current()
            == joined(
            old(search).dir(),
            copy_name(old(search).stem_of(), old(search).ext_of(), final(search).tries()),
        ),
{
    if search.tries_count() >= LOCAL_COPY_NAME_TRIES {
        return Err(String::from_str("Cannot generate unique name for copy"));
    }
    let _ = search.next();
    Ok(())
}

/// What a copy inside a local source copies, once its destination is fixed.
#[derive(Clone, Copy, PartialEq, Eq, Debug, Structural)]
pub enum LocalCopyKind {
    /// A folder, with everything in it.
    Tree,
    /// A single file.
    File,
}

/// The last checks of a copy from `from` to `to` (both resolved): a folder is not copied
/// into itself; a file does not replace an existing one unless `overwrite` allows it.
pub fn local_copy_check(from: &str, to: &str, from_is_dir: bool, to_exists: bool, overwrite: bool) -> (r:
    Result<LocalCopyKind, String>)
    ensures
        from_is_dir && within(to@, from@) ==> (r matches Err(m) && m@ == "Cannot copy folder \""@
            + match file_name_of(from@) {
            Some(n) => n,
            None => "folder"@,
        } + "\" into itself"@),
        from_is_dir && !within(to@, from@) ==> r == Ok::<LocalCopyKind, String>(LocalCopyKind::Tree),
        !from_is_dir && to_exists && !overwrite ==> (r matches Err(m) && m@
            == "Destination file already exists: \""@ + to@ + "\""@),
        !from_is_dir && !(to_exists && !overwrite) ==> r == Ok::<LocalCopyKind, String>(LocalCopyKind::File),
{
    if from_is_dir {
        if path_within(to, from) {
            let name = match file_name(from) {
                Some(n) => n,
                None => String::from_str("folder"),
            };
            return Err(String::from_str("Cannot copy folder \"").concat(name.as_str()).concat("\" into itself"));
        }
        Ok(LocalCopyKind::Tree)
    } else if to_exists && !overwrite {
        Err(String::from_str("Destination file already exists: \"").concat(to).concat("\""))
    } else {
        Ok(LocalCopyKind::File)
    }
}

} // verus!
