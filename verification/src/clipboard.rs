//! The clipboard of the virtual filesystem: what was copied or cut, and the rules that turn a
//! paste into copies (destination names, self-copy checks, error reports, outcome).

use vstd::prelude::*;
use crate::paths::{file_name, file_name_of, join_path, joined};
use crate::text::{
    chars_of, contains, contains_seq, decimal, has_prefix, lemma_split_append, lemma_split_single,
    lines, lines_of, rfind_char, split_on, strip_cr,
    same_text, starts_with, string_of_range, strip_prefix, to_decimal, trim, trim_end_by,
    trim_end_class, trim_start_by, trim_start_class, trimmed, CharClass,
};

verus! {

/// Where clipboard paths live.
#[derive(Clone, PartialEq, Eq, Debug)]
pub enum ClipboardSource {
    /// The native file system.
    Native,
    /// A virtual filesystem source.
    Vfs { source_id: String },
}

/// Whether the paths were copied or cut.
#[derive(Clone, Copy, PartialEq, Eq, Debug, Structural)]
pub enum ClipboardOperation {
    Copy,
    Cut,
}

/// What the clipboard holds.
#[derive(Debug)]
pub struct ClipboardContent {
    pub source: ClipboardSource,
    pub paths: Vec<String>,
    pub operation: ClipboardOperation,
}

/// The views of a list of strings.
pub open spec fn views(v: Seq<String>) -> Seq<Seq<char>> {
    v.map_values(|s: String| s@)
}

/// The source as a value: the source id of a virtual filesystem, none for the native one.
pub open spec fn source_view(s: ClipboardSource) -> Option<Seq<char>> {
    match s {
        ClipboardSource::Native => None,
        ClipboardSource::Vfs { source_id } => Some(source_id@),
    }
}

impl View for ClipboardContent {
    /// The source, the paths, and whether they were cut.
    type V = (Option<Seq<char>>, Seq<Seq<char>>, bool);

    open spec fn view(&self) -> Self::V {
        (source_view(self.source), views(self.paths@), self.operation == ClipboardOperation::Cut)
    }
}

/// A copy of a list of strings.
pub fn clone_strings(v: &Vec<String>) -> (r: Vec<String>)
    ensures
        views(r@) == views(v@),
{
    let mut r: Vec<String> = Vec::new();
    let mut i: usize = 0;
    while i < v.len()
        invariant
            i <= v@.len(),
            views(r@) == views(v@.subrange(0, i as int)),
        decreases v.len() - i,
    {
        let c = v[i].clone();
        assert(c@ == v@[i as int]@);
        let ghost before = r@;
        r.push(c);
        proof {
            assert(v@.subrange(0, i + 1) =~= v@.subrange(0, i as int).push(v@[i as int]));
            assert(r@ =~= before.push(c));
            assert(views(r@) =~= views(before).push(c@));
            assert(views(v@.subrange(0, i + 1)) =~= views(v@.subrange(0, i as int)).push(v@[i as int]@));
        }
        i = i + 1;
    }
    assert(v@.subrange(0, v@.len() as int) =~= v@);
    r
}

fn clone_source(s: &ClipboardSource) -> (r: ClipboardSource)
    ensures
        source_view(r) == source_view(*s),
{
    match s {
        ClipboardSource::Native => ClipboardSource::Native,
        ClipboardSource::Vfs { source_id } => ClipboardSource::Vfs { source_id: source_id.clone() },
    }
}

impl ClipboardContent {
    /// Content for copied paths.
    pub fn copy(source: ClipboardSource, paths: Vec<String>) -> (r: Self)
        ensures
            r@ == (source_view(source), views(paths@), false),
    {
        ClipboardContent { source, paths, operation: ClipboardOperation::Copy }
    }

    /// Content for cut paths.
    pub fn cut(source: ClipboardSource, paths: Vec<String>) -> (r: Self)
        ensures
            r@ == (source_view(source), views(paths@), true),
    {
        ClipboardContent { source, paths, operation: ClipboardOperation::Cut }
    }

    /// Whether the paths were cut.
    pub fn is_cut(&self) -> (r: bool)
        ensures
            r == self@.2,
    {
        match self.operation {
            ClipboardOperation::Cut => true,
            ClipboardOperation::Copy => false,
        }
    }

    /// Whether the paths are in a virtual filesystem.
    pub fn is_vfs(&self) -> (r: bool)
        ensures
            r == self@.0 is Some,
    {
        match self.source {
            ClipboardSource::Vfs { .. } => true,
            ClipboardSource::Native => false,
        }
    }

    /// A copy of the content.
    pub fn duplicate(&self) -> (r: Self)
        ensures
            r@ == self@,
            r.operation == self.operation,
    {
        ClipboardContent {
            source: clone_source(&self.source),
            paths: clone_strings(&self.paths),
            operation: self.operation,
        }
    }
}

/// The clipboard kept inside the application (the native one is read and written around it).
pub struct ClipboardAdapter {
    internal_clipboard: Option<ClipboardContent>,
}

/// The label under which a paste is tracked: `native`, or the source id.
pub open spec fn source_label(s: Option<Seq<char>>) -> Seq<char> {
    match s {
        None => "native"@,
        Some(id) => id,
    }
}

impl ClipboardAdapter {
    /// What the clipboard holds, if anything.
    pub closed spec fn content(&self) -> Option<(Option<Seq<char>>, Seq<Seq<char>>, bool)> {
        match self.internal_clipboard {
            Some(c) => Some(c@),
            None => None,
        }
    }

    /// An empty clipboard.
    pub fn new() -> (r: Self)
        ensures
            r.content() is None,
    {
        ClipboardAdapter { internal_clipboard: None }
    }

    /// Puts copied paths on the clipboard, replacing what was there.
    pub fn copy_files(&mut self, source: ClipboardSource, paths: Vec<String>)
        ensures
            final(self).content() == Some((source_view(source), views(paths@), false)),
    {
        self.internal_clipboard = Some(ClipboardContent::copy(source, paths));
    }

    /// Puts cut paths on the clipboard, replacing what was there.
    pub fn cut_files(&mut self, source: ClipboardSource, paths: Vec<String>)
        ensures
            final(self).content() == Some((source_view(source), views(paths@), true)),
    {
        self.internal_clipboard = Some(ClipboardContent::cut(source, paths));
    }

    /// A copy of what the clipboard holds.
    pub fn get_clipboard(&self) -> (r: Option<ClipboardContent>)
        ensures
            match r {
                Some(c) => self.content() == Some(c@),
                None => self.content() is None,
            },
    {
        match &self.internal_clipboard {
            Some(c) => Some(c.duplicate()),
            None => None,
        }
    }

    /// Takes over the paths found on the native clipboard (those that still exist): when there
    /// are any, they become copied native paths and are returned.
    pub fn adopt_native(&mut self, existing: Vec<String>) -> (r: Option<ClipboardContent>)
        ensures
            existing@.len() == 0 ==> r is None && final(self).content() == old(self).content(),
            existing@.len() > 0 ==> (r matches Some(c) && c@ == (None::<Seq<char>>, views(existing@), false)
                && final(self).content() == Some(c@)),
    {
        if existing.len() == 0 {
            return None;
        }
        let content = ClipboardContent::copy(ClipboardSource::Native, existing);
        let out = content.duplicate();
        self.internal_clipboard = Some(content);
        Some(out)
    }

    /// Empties the clipboard.
    pub fn clear_clipboard(&mut self)
        ensures
            final(self).content() is None,
    {
        self.internal_clipboard = None;
    }

    /// Whether the clipboard holds at least one path.
    pub fn has_files(&self) -> (r: bool)
        ensures
            r == (self.content() matches Some(c) && c.1.len() > 0),
    {
        match &self.internal_clipboard {
            Some(c) => c.paths.len() > 0,
            None => false,
        }
    }

    /// The name a path is copied under: its last component, or `unnamed`.
    pub fn file_name(path: &str) -> (r: String)
        ensures
            r@ == match file_name_of(path@) {
                Some(n) => n,
                None => "unnamed"@,
            },
    {
        match file_name(path) {
            Some(n) => n,
            None => String::from_str("unnamed"),
        }
    }
}

/// The stem and extension of a name, split at its last `.` (the extension keeps the dot).
pub open spec fn split_ext(name: Seq<char>) -> (Seq<char>, Seq<char>) {
    if exists|i: int| 0 <= i < name.len() && name[i] == '.' {
        let i = choose|i: int|
            0 <= i < name.len() && name[i] == '.' && forall|j: int| i < j < name.len() ==> name[j] != '.';
        (name.subrange(0, i), name.subrange(i, name.len() as int))
    } else {
        (name, Seq::empty())
    }
}

/// The name tried at the `n`-th collision: `stem copy.ext`, then `stem copy n.ext`.
pub open spec fn copy_name(stem: Seq<char>, ext: Seq<char>, n: nat) -> Seq<char> {
    if n == 1 {
        stem + " copy"@ + ext
    } else {
        stem + " copy "@ + decimal(n) + ext
    }
}

/// The search for a free name in a directory, one existence check at a time.
pub struct UniqueNameSearch {
    dest_dir: String,
    stem: String,
    ext: String,
    counter: u32,
    candidate: String,
}

/// Too many names were taken (more than a thousand copies).
#[derive(Clone, Copy, PartialEq, Eq, Debug, Structural)]
pub struct TooManyDuplicates;

impl UniqueNameSearch {
    /// The directory the names go in.
    pub closed spec fn dir(&self) -> Seq<char> {
        self.dest_dir@
    }

    /// The name without its extension.
    pub closed spec fn stem_of(&self) -> Seq<char> {
        self.stem@
    }

    /// The extension, with its dot.
    pub closed spec fn ext_of(&self) -> Seq<char> {
        self.ext@
    }

    /// How many names were found taken.
    pub closed spec fn tries(&self) -> nat {
        self.counter as nat
    }

    /// The path to check next.
    pub closed spec fn current(&self) -> Seq<char> {
        self.candidate@
    }

    /// Starts the search with the name itself.
    pub fn start(dest_dir: &str, base_name: &str) -> (r: Self)
        ensures
            r.dir() == dest_dir@,
            (r.stem_of(), r.ext_of()) == split_ext(base_name@),
            r.tries() == 0,
            r.current() == joined(dest_dir@, base_name@),
    {
        let v = chars_of(base_name);
        let (stem, ext) = match rfind_char(v.as_slice(), '.') {
            Some(i) => {
                proof {
                    let s = v@;
                    let k = choose|k: int|
                        0 <= k < s.len() && s[k] == '.' && forall|j: int| k < j < s.len() ==> s[j] != '.';
                    if k < i {
                        assert(s[i as int] != '.');
                    } else if k > i {
                        assert(s[k] != '.');
                    }
                }
                (string_of_range(v.as_slice(), 0, i), string_of_range(v.as_slice(), i, v.len()))
            },
            None => {
                assert(v@.subrange(0, v@.len() as int) =~= v@);
                (string_of_range(v.as_slice(), 0, v.len()), String::new())
            },
        };
        UniqueNameSearch {
            dest_dir: String::from_str(dest_dir),
            stem,
            ext,
            counter: 0,
            candidate: join_path(dest_dir, base_name),
        }
    }

    /// How many names were found taken.
    pub fn tries_count(&self) -> (r: u32)
        ensures
            r == self.tries(),
    {
        self.counter
    }

    /// The path to check next.
    pub fn candidate(&self) -> (r: &str)
        ensures
            r@ == self.current(),
    {
        self.candidate.as_str()
    }

    /// Moves on after the current candidate was found taken: the next name, or an error once
    /// more than a thousand names were taken.
    pub fn next(&mut self) -> (r: Result<(), TooManyDuplicates>)
        requires
            old(self).tries() <= 1000,
        ensures
            final(self).tries() == old(self).tries() + 1,
            final(self).dir() == old(self).dir(),
            final(self).stem_of() == old(self).stem_of(),
            final(self).ext_of() == old(self).ext_of(),
            final(self).current() == joined(
                old(self).dir(),
                copy_name(old(self).stem_of(), old(self).ext_of(), final(self).tries()),
            ),
            r is Err <==> final(self).tries() > 1000,
    {
        self.counter = self.counter + 1;
        let name = if self.counter == 1 {
            self.stem.clone().concat(" copy").concat(self.ext.as_str())
        } else {
            let n = to_decimal(self.counter as u64);
            self.stem.clone().concat(" copy ").concat(n.as_str()).concat(self.ext.as_str())
        };
        self.candidate = join_path(self.dest_dir.as_str(), name.as_str());
        if self.counter > 1000 {
            Err(TooManyDuplicates)
        } else {
            Ok(())
        }
    }
}

/// A path as paths are compared for self-copies: without leading and trailing slashes.
pub open spec fn comparable(p: Seq<char>) -> Seq<char> {
    trim_end_by(trim_start_by(p, CharClass::Exactly('/')), CharClass::Exactly('/'))
}

/// A path as paths are compared for self-copies (see `comparable`).
pub fn normalize_for_comparison(p: &str) -> (r: String)
    ensures
        r@ == comparable(p@),
{
    let a = trim_start_class(p, CharClass::Exactly('/'));
    trim_end_class(a.as_str(), CharClass::Exactly('/'))
}

/// Whether `inner` is `outer` or lies below it.
pub open spec fn within(inner: Seq<char>, outer: Seq<char>) -> bool {
    has_prefix(inner, outer.push('/')) || inner == outer
}

/// Whether `inner` is `outer` or lies below it (see `within`).
pub fn path_within(inner: &str, outer: &str) -> (r: bool)
    ensures
        r == within(inner@, outer@),
{
    proof {
        reveal_strlit("/");
    }
    let with_slash = String::from_str(outer).concat("/");
    assert(with_slash@ =~= outer@.push('/'));
    starts_with(inner, with_slash.as_str()) || same_text(inner, outer)
}

/// Whether a directory copied to `dest` would land inside itself (`source` non-empty once
/// normalized, and `dest` within it).
pub fn copies_into_itself(source: &str, dest: &str) -> (r: bool)
    ensures
        r == (comparable(source@).len() > 0 && within(comparable(dest@), comparable(source@))),
{
    let s = normalize_for_comparison(source);
    let d = normalize_for_comparison(dest);
    !s.as_str().is_empty() && path_within(d.as_str(), s.as_str())
}

/// Why a copy inside the virtual filesystem cannot go ahead.
#[derive(Clone, Debug)]
pub enum CopyPathError {
    /// The source has no name to copy under.
    NoFileName,
    /// The destination would be the root.
    RootDestination { file_name: String },
    /// A folder would be copied into itself.
    IntoItself { file_name: String },
}

/// Where a copy into a virtual filesystem directory lands: the directory joined with the
/// source's name, made absolute.
pub open spec fn copy_destination_of(source: Seq<char>, dest_dir: Seq<char>) -> Seq<char> {
    let name = match file_name_of(source) {
        Some(n) => n,
        None => "unnamed"@,
    };
    let d = joined(dest_dir, name);
    if d.len() > 0 && d[0] == '/' {
        d
    } else {
        joined(seq!['/'], d)
    }
}

/// The destination of a copy into `dest_dir`, refused when it would be the root.
pub fn copy_destination(source: &str, dest_dir: &str) -> (r: Result<String, CopyPathError>)
    ensures
        ({
            let d = copy_destination_of(source@, dest_dir@);
            if trimmed(d) == seq!['/'] || trimmed(d).len() == 0 {
                r is Err
            } else {
                r matches Ok(p) && p@ == d
            }
        }),
{
    let name = ClipboardAdapter::file_name(source);
    proof {
        reveal_strlit("unnamed");
    }
    if name.as_str().is_empty() {
        return Err(CopyPathError::NoFileName);
    }
    let d = join_path(dest_dir, name.as_str());
    let dv = chars_of(d.as_str());
    let d = if dv.len() > 0 && dv[0] == '/' {
        d
    } else {
        proof {
            reveal_strlit("/");
            assert("/"@ =~= seq!['/']);
        }
        join_path("/", d.as_str())
    };
    let t = trim(d.as_str());
    proof {
        reveal_strlit("/");
        assert("/"@ =~= seq!['/']);
    }
    if same_text(t.as_str(), "/") || t.as_str().is_empty() {
        return Err(CopyPathError::RootDestination { file_name: name });
    }
    Ok(d)
}

/// What to do about a copy within one virtual filesystem source.
#[derive(Clone, Copy, PartialEq, Eq, Debug, Structural)]
pub enum SelfCopyCheck {
    /// Copy to the destination as it is.
    Proceed,
    /// Source and destination are the same path: find a free name.
    UniqueName,
    /// A file is copied into its own directory: find a free name if the destination exists.
    UniqueNameIfTaken,
    /// A folder would be copied into itself.
    IntoItself,
}

/// The check for a copy from `source` to `dest` (in directory `dest_dir`) within one source,
/// given whether the source is a directory.
pub open spec fn self_copy_check_of(
    source: Seq<char>,
    dest: Seq<char>,
    dest_dir: Seq<char>,
    source_is_dir: bool,
) -> SelfCopyCheck {
    let s = comparable(source);
    let d = comparable(dest);
    if s == d {
        SelfCopyCheck::UniqueName
    } else if source_is_dir && within(d, s) {
        SelfCopyCheck::IntoItself
    } else if !source_is_dir && s == comparable(dest_dir) {
        SelfCopyCheck::UniqueNameIfTaken
    } else {
        SelfCopyCheck::Proceed
    }
}

/// Decides how a copy within one source must go (see `self_copy_check_of`).
pub fn self_copy_check(source: &str, dest: &str, dest_dir: &str, source_is_dir: bool) -> (r:
    SelfCopyCheck)
    ensures
        r == self_copy_check_of(source@, dest@, dest_dir@, source_is_dir),
{
    let s = normalize_for_comparison(source);
    let d = normalize_for_comparison(dest);
    if same_text(s.as_str(), d.as_str()) {
        return SelfCopyCheck::UniqueName;
    }
    if source_is_dir && path_within(d.as_str(), s.as_str()) {
        return SelfCopyCheck::IntoItself;
    }
    if !source_is_dir {
        let dd = normalize_for_comparison(dest_dir);
        if same_text(s.as_str(), dd.as_str()) {
            return SelfCopyCheck::UniqueNameIfTaken;
        }
    }
    SelfCopyCheck::Proceed
}

/// The label under which a paste from this source is tracked.
pub fn paste_source_label(source: &ClipboardSource) -> (r: String)
    ensures
        r@ == source_label(source_view(*source)),
{
    match source {
        ClipboardSource::Native => String::from_str("native"),
        ClipboardSource::Vfs { source_id } => source_id.clone(),
    }
}

/// Why a paste cannot start.
#[derive(Clone, Copy, PartialEq, Eq, Debug, Structural)]
pub enum PasteRefusal {
    /// No destination source was named.
    EmptyDestinationSource,
    /// The clipboard is empty.
    EmptyClipboard,
    /// The clipboard holds no paths.
    NoFiles,
}

impl PasteRefusal {
    /// The message a refused paste reports.
    pub fn message(&self) -> (r: String)
        ensures
            r@ == match self {
                PasteRefusal::EmptyDestinationSource => "Destination source ID cannot be empty"@,
                PasteRefusal::EmptyClipboard => "Clipboard is empty"@,
                PasteRefusal::NoFiles => "Clipboard contains no files"@,
            },
    {
        match self {
            PasteRefusal::EmptyDestinationSource => String::from_str("Destination source ID cannot be empty"),
            PasteRefusal::EmptyClipboard => String::from_str("Clipboard is empty"),
            PasteRefusal::NoFiles => String::from_str("Clipboard contains no files"),
        }
    }
}

/// Checks that a paste can start.
pub fn check_paste(dest_source_id: &str, content: &Option<ClipboardContent>) -> (r: Result<(), PasteRefusal>)
    ensures
        trimmed(dest_source_id@).len() == 0 ==> r == Err::<(), _>(PasteRefusal::EmptyDestinationSource),
        trimmed(dest_source_id@).len() != 0 && content is None ==> r == Err::<(), _>(PasteRefusal::EmptyClipboard),
        trimmed(dest_source_id@).len() != 0 && content is Some ==> (if content->0.paths@.len() == 0 {
            r == Err::<(), _>(PasteRefusal::NoFiles)
        } else {
            r is Ok
        }),
{
    let t = trim(dest_source_id);
    if t.as_str().is_empty() {
        return Err(PasteRefusal::EmptyDestinationSource);
    }
    match content {
        None => Err(PasteRefusal::EmptyClipboard),
        Some(c) => if c.paths.len() == 0 {
            Err(PasteRefusal::NoFiles)
        } else {
            Ok(())
        },
    }
}

/// The kind of a failed copy, as its error text shows it.
#[derive(Clone, Copy, PartialEq, Eq, Debug, Structural)]
pub enum PasteFailureKind {
    /// The error already explains itself (a copy into itself).
    SelfExplaining,
    PermissionDenied,
    InvalidPath,
    Other,
}

/// The kind of a failed copy.
pub open spec fn paste_failure_kind(e: Seq<char>) -> PasteFailureKind {
    if contains_seq(e, "Cannot copy"@) || contains_seq(e, "into itself"@) {
        PasteFailureKind::SelfExplaining
    } else if contains_seq(e, "Permission denied"@) || contains_seq(e, "403"@) || contains_seq(
        e,
        "AccessDenied"@,
    ) {
        PasteFailureKind::PermissionDenied
    } else if contains_seq(e, "cannot be empty"@) || contains_seq(e, "invalid"@) || contains_seq(
        e,
        "Destination path cannot be empty"@,
    ) {
        PasteFailureKind::InvalidPath
    } else {
        PasteFailureKind::Other
    }
}

/// The message shown for a failed copy of `name` from `path` to `attempted`.
pub open spec fn paste_failure_message(
    name: Seq<char>,
    path: Seq<char>,
    attempted: Seq<char>,
    e: Seq<char>,
) -> Seq<char> {
    let head = "\""@ + name + "\": "@;
    match paste_failure_kind(e) {
        PasteFailureKind::SelfExplaining => head + e,
        PasteFailureKind::PermissionDenied => head
            + "Permission denied. Check IAM permissions: s3:GetObject (read), s3:PutObject (write), s3:DeleteObject (delete). Error: "@
            + e,
        PasteFailureKind::InvalidPath => head + "Invalid destination path. Error: "@ + e,
        PasteFailureKind::Other => head + "Failed to copy \""@ + path + "\" to \""@ + attempted
            + "\". Error: "@ + e,
    }
}

/// The message shown for a failed copy (see `paste_failure_message`).
pub fn describe_paste_failure(name: &str, path: &str, attempted: &str, error: &str) -> (r: String)
    ensures
        r@ == paste_failure_message(name@, path@, attempted@, error@),
{
    let head = String::from_str("\"").concat(name).concat("\": ");
    if contains(error, "Cannot copy") || contains(error, "into itself") {
        head.concat(error)
    } else if contains(error, "Permission denied") || contains(error, "403") || contains(
        error,
        "AccessDenied",
    ) {
        head.concat(
            "Permission denied. Check IAM permissions: s3:GetObject (read), s3:PutObject (write), s3:DeleteObject (delete). Error: ",
        ).concat(error)
    } else if contains(error, "cannot be empty") || contains(error, "invalid") || contains(
        error,
        "Destination path cannot be empty",
    ) {
        head.concat("Invalid destination path. Error: ").concat(error)
    } else {
        head.concat("Failed to copy \"").concat(path).concat("\" to \"").concat(attempted).concat(
            "\". Error: ",
        ).concat(error)
    }
}

/// The outcome of a paste.
#[derive(Debug)]
pub struct PasteResult {
    pub files_pasted: usize,
    pub files_failed: usize,
    pub pasted_paths: Vec<String>,
    pub errors: Vec<String>,
    pub operation_id: Option<String>,
}

/// The destinations of the copies that succeeded, in order.
pub open spec fn successes(rs: Seq<Result<String, String>>) -> Seq<Seq<char>>
    decreases rs.len(),
{
    if rs.len() == 0 {
        Seq::empty()
    } else {
        match rs.last() {
            Ok(p) => successes(rs.drop_last()).push(p@),
            Err(_) => successes(rs.drop_last()),
        }
    }
}

/// The messages of the copies that failed, in order.
pub open spec fn failures(rs: Seq<Result<String, String>>) -> Seq<Seq<char>>
    decreases rs.len(),
{
    if rs.len() == 0 {
        Seq::empty()
    } else {
        match rs.last() {
            Ok(_) => failures(rs.drop_last()),
            Err(e) => failures(rs.drop_last()).push(e@),
        }
    }
}

proof fn lemma_outcome_counts(rs: Seq<Result<String, String>>)
    ensures
        successes(rs).len() + failures(rs).len() == rs.len(),
    decreases rs.len(),
{
    if rs.len() > 0 {
        lemma_outcome_counts(rs.drop_last());
    }
}

/// The outcome of a paste from the result of each copy (its destination, or its error
/// message), in clipboard order.
pub fn summarize_paste(results: Vec<Result<String, String>>, operation_id: Option<String>) -> (r:
    PasteResult)
    ensures
        views(r.pasted_paths@) == successes(results@),
        views(r.errors@) == failures(results@),
        r.files_pasted == successes(results@).len(),
        r.files_failed == failures(results@).len(),
        r.files_pasted + r.files_failed == results@.len(),
        r.operation_id == operation_id,
{
    let ghost orig = results@;
    let n = results.len();
    let mut rest = results;
    let mut pasted: Vec<String> = Vec::new();
    let mut errors: Vec<String> = Vec::new();
    let mut i: usize = 0;
    while rest.len() > 0
        invariant
            i + rest@.len() == orig.len(),
            orig.len() == n,
            rest@ == orig.subrange(i as int, orig.len() as int),
            views(pasted@) == successes(orig.subrange(0, i as int)),
            views(errors@) == failures(orig.subrange(0, i as int)),
        decreases rest@.len(),
    {
        let r = rest.remove(0);
        proof {
            assert(orig[i as int] == r);
            assert(orig.subrange(0, i + 1).drop_last() =~= orig.subrange(0, i as int));
            assert(orig.subrange(0, i + 1).last() == r);
        }
        match r {
            Ok(p) => {
                pasted.push(p);
                assert(views(pasted@) =~= successes(orig.subrange(0, i + 1)));
            },
            Err(e) => {
                errors.push(e);
                assert(views(errors@) =~= failures(orig.subrange(0, i + 1)));
            },
        }
        i = i + 1;
        assert(rest@ =~= orig.subrange(i as int, orig.len() as int));
    }
    proof {
        assert(orig.subrange(0, i as int) =~= orig);
        lemma_outcome_counts(orig);
    }
    let np = pasted.len();
    let nf = errors.len();
    PasteResult {
        files_pasted: np,
        files_failed: nf,
        pasted_paths: pasted,
        errors,
        operation_id,
    }
}

/// Whether the sources are deleted (and the clipboard emptied) after a paste: only after a
/// cut that failed nowhere.
pub fn removes_sources(content: &ClipboardContent, result: &PasteResult) -> (r: bool)
    ensures
        r == (content@.2 && result.files_failed == 0),
{
    content.is_cut() && result.files_failed == 0
}

/// The name a failed copy of `path` is reported under: its last component, or the whole
/// path when it has none.
pub open spec fn failure_name(path: Seq<char>) -> Seq<char> {
    match file_name_of(path) {
        Some(n) => n,
        None => path,
    }
}

/// The message for a failed copy of `path` into `dest` with error `e` (see
/// `paste_failure_message`): the attempted destination is `dest` joined with the name.
pub open spec fn paste_error(path: Seq<char>, dest: Seq<char>, e: Seq<char>) -> Seq<char> {
    paste_failure_message(failure_name(path), path, joined(dest, failure_name(path)), e)
}

/// The messages of the failed copies, in order, where `rs[i]` is the outcome of copying
/// `paths[i]` into `dest`.
pub open spec fn paste_errors(
    paths: Seq<Seq<char>>,
    dest: Seq<char>,
    rs: Seq<Result<String, String>>,
) -> Seq<Seq<char>>
    decreases rs.len(),
{
    if rs.len() == 0 {
        Seq::empty()
    } else {
        let before = paste_errors(paths.drop_last(), dest, rs.drop_last());
        match rs.last() {
            Ok(_) => before,
            Err(e) => before.push(paste_error(paths.last(), dest, e@)),
        }
    }
}

fn describe_outcomes(paths: &Vec<String>, dest: &str, outcomes: &Vec<Result<String, String>>) -> (r: Vec<
    Result<String, String>,
>)
    requires
        paths@.len() == outcomes@.len(),
    ensures
        r@.len() == outcomes@.len(),
        successes(r@) == successes(outcomes@),
        failures(r@) == paste_errors(views(paths@), dest@, outcomes@),
{
    let mut out: Vec<Result<String, String>> = Vec::new();
    let mut i: usize = 0;
    while i < outcomes.len()
        invariant
            i <= outcomes@.len() == paths@.len(),
            out@.len() == i,
            successes(out@) == successes(outcomes@.subrange(0, i as int)),
            failures(out@) == paste_errors(
                views(paths@.subrange(0, i as int)),
                dest@,
                outcomes@.subrange(0, i as int),
            ),
        decreases outcomes.len() - i,
    {
        let ghost before = out@;
        let item = match &outcomes[i] {
            Ok(d) => Ok(d.clone()),
            Err(e) => {
                let p = paths[i].as_str();
                let name = match file_name(p) {
                    Some(n) => n,
                    None => p.to_string(),
                };
                let attempted = join_path(dest, name.as_str());
                Err(describe_paste_failure(name.as_str(), p, attempted.as_str(), e.as_str()))
            },
        };
        out.push(item);
        proof {
            let rs = outcomes@.subrange(0, i + 1);
            let ps = views(paths@.subrange(0, i + 1));
            assert(rs.drop_last() =~= outcomes@.subrange(0, i as int));
            assert(ps.drop_last() =~= views(paths@.subrange(0, i as int)));
            assert(ps.last() == paths@[i as int]@);
            assert(rs.last() == outcomes@[i as int]);
            assert(out@.drop_last() =~= before);
        }
        i = i + 1;
    }
    proof {
        assert(outcomes@.subrange(0, i as int) =~= outcomes@);
        assert(paths@.subrange(0, i as int) =~= paths@);
    }
    out
}

impl ClipboardAdapter {
    /// Finishes a paste of `content` into `dest`, where `outcomes[i]` is what copying the i-th
    /// path of the clipboard gave (its destination, or the error): the copies are summarised
    /// under the operation id, which every paste carries (see `summarize_paste`), each failure
    /// reported for its own path (see `paste_error`); and the paths to delete are returned.
    /// After a cut whose copies all succeeded, every cut path is to be deleted and the
    /// clipboard is emptied; otherwise nothing is deleted and the clipboard keeps what it holds.
    pub fn finish_paste(
        &mut self,
        content: &ClipboardContent,
        outcomes: Vec<Result<String, String>>,
        dest: &str,
        operation_id: String,
    ) -> (r: (PasteResult, Vec<String>))
        requires
            outcomes@.len() == content@.1.len(),
        ensures
            views(r.0.pasted_paths@) == successes(outcomes@),
            views(r.0.errors@) == paste_errors(content@.1, dest@, outcomes@),
            r.0.files_pasted == successes(outcomes@).len(),
            r.0.files_failed == paste_errors(content@.1, dest@, outcomes@).len(),
            r.0.files_pasted + r.0.files_failed == content@.1.len(),
            r.0.operation_id == Some(operation_id),
            content@.2 && r.0.files_failed == 0 ==> views(r.1@) == content@.1
                && final(self).content() is None,
            !(content@.2 && r.0.files_failed == 0) ==> r.1@.len() == 0
                && final(self).content() == old(self).content(),
    {
        let described = describe_outcomes(&content.paths, dest, &outcomes);
        let summary = summarize_paste(described, Some(operation_id));
        if removes_sources(content, &summary) {
            let doomed = clone_strings(&content.paths);
            self.clear_clipboard();
            (summary, doomed)
        } else {
            (summary, Vec::new())
        }
    }
}

/// Whether a byte is left as it is by percent-encoding: letters, digits, `-`, `.`, `_`, `~`.
pub open spec fn unreserved(b: u8) -> bool {
    (48 <= b <= 57) || (65 <= b <= 90) || (97 <= b <= 122) || b == 45 || b == 46 || b == 95 || b == 126
}

/// The upper-case hexadecimal digit for `d` (below sixteen).
pub open spec fn hex_digit(d: int) -> char {
    if d < 10 {
        (48 + d) as char
    } else {
        (55 + d) as char
    }
}

/// How percent-encoding writes one byte: itself when unreserved, else `%` and two digits.
pub open spec fn percent_token(b: u8) -> Seq<char> {
    if unreserved(b) {
        seq![b as char]
    } else {
        seq!['%', hex_digit(b as int / 16), hex_digit(b as int % 16)]
    }
}

/// The percent-encoding of some bytes.
pub open spec fn percent_encoded(bytes: Seq<u8>) -> Seq<char>
    decreases bytes.len(),
{
    if bytes.len() == 0 {
        Seq::empty()
    } else {
        percent_encoded(bytes.drop_last()) + percent_token(bytes.last())
    }
}

/// The value of a hexadecimal digit byte, upper or lower case.
pub open spec fn hex_value(b: u8) -> Option<int> {
    if 48 <= b <= 57 {
        Some(b - 48)
    } else if 65 <= b <= 70 {
        Some(b - 55)
    } else if 97 <= b <= 102 {
        Some(b - 87)
    } else {
        None
    }
}

/// Percent-decoding of bytes, as `urlencoding::decode_binary` does it: `%` and two
/// hexadecimal digits become the byte they spell; every other byte, a `%` without two digits
/// after it among them, stays as it is.
pub open spec fn percent_decoded(b: Seq<u8>) -> Seq<u8>
    decreases b.len(),
{
    if b.len() == 0 {
        Seq::empty()
    } else if b[0] == 37 && b.len() >= 3 && hex_value(b[1]) is Some && hex_value(b[2]) is Some {
        seq![(hex_value(b[1])->0 * 16 + hex_value(b[2])->0) as u8] + percent_decoded(
            b.subrange(3, b.len() as int),
        )
    } else {
        seq![b[0]] + percent_decoded(b.subrange(1, b.len() as int))
    }
}

/// What `urlencoding::decode` gives for a string: its UTF-8 bytes percent-decoded, read as
/// UTF-8; none when they are not UTF-8.
pub open spec fn url_decoded(s: Seq<char>) -> Option<Seq<char>> {
    let d = percent_decoded(vstd::utf8::encode_utf8(s));
    if vstd::utf8::valid_utf8(d) {
        Some(vstd::utf8::decode_utf8(d))
    } else {
        None
    }
}

proof fn lemma_percent_encoded_front(b: Seq<u8>)
    requires
        b.len() > 0,
    ensures
        percent_encoded(b) == percent_token(b[0]) + percent_encoded(b.subrange(1, b.len() as int)),
    decreases b.len(),
{
    if b.len() == 1 {
        assert(b.drop_last() =~= Seq::<u8>::empty());
        assert(b.subrange(1, 1) =~= Seq::<u8>::empty());
        assert(percent_encoded(Seq::<u8>::empty()) =~= Seq::<char>::empty());
        assert(b.last() == b[0]);
        assert(percent_encoded(b) =~= percent_token(b[0]) + percent_encoded(b.subrange(1, 1)));
    } else {
        let d = b.drop_last();
        lemma_percent_encoded_front(d);
        let t = b.subrange(1, b.len() as int);
        assert(d.subrange(1, d.len() as int) =~= t.drop_last());
        assert(t.last() == b.last());
        assert(percent_encoded(b) =~= percent_token(b[0]) + (percent_encoded(t.drop_last())
            + percent_token(t.last())));
    }
}

proof fn lemma_encode_utf8_concat(a: Seq<char>, c: Seq<char>)
    ensures
        vstd::utf8::encode_utf8(a + c) == vstd::utf8::encode_utf8(a) + vstd::utf8::encode_utf8(c),
    decreases a.len(),
{
    if a.len() == 0 {
        assert(a + c =~= c);
        assert(vstd::utf8::encode_utf8(a) =~= Seq::<u8>::empty());
        assert(vstd::utf8::encode_utf8(a + c) =~= vstd::utf8::encode_utf8(a) + vstd::utf8::encode_utf8(c));
    } else {
        assert((a + c).drop_first() =~= a.drop_first() + c);
        assert((a + c)[0] == a[0]);
        lemma_encode_utf8_concat(a.drop_first(), c);
        assert(vstd::utf8::encode_utf8(a + c) =~= vstd::utf8::encode_utf8(a) + vstd::utf8::encode_utf8(c));
    }
}

proof fn lemma_token_bytes(x: u8)
    ensures
        unreserved(x) ==> vstd::utf8::encode_utf8(percent_token(x)) == seq![x],
        !unreserved(x) ==> vstd::utf8::encode_utf8(percent_token(x)) == seq![
            37u8,
            hex_digit(x as int / 16) as u8,
            hex_digit(x as int % 16) as u8,
        ],
{
    let t = percent_token(x);
    assert(vstd::utf8::is_ascii_chars(t));
    vstd::utf8::is_ascii_chars_encode_utf8(t);
    if unreserved(x) {
        assert(vstd::utf8::encode_utf8(t) =~= seq![x]);
    } else {
        assert(vstd::utf8::encode_utf8(t) =~= seq![
            37u8,
            hex_digit(x as int / 16) as u8,
            hex_digit(x as int % 16) as u8,
        ]);
    }
}

proof fn lemma_percent_round_trip(b: Seq<u8>)
    ensures
        percent_decoded(vstd::utf8::encode_utf8(percent_encoded(b))) == b,
    decreases b.len(),
{
    if b.len() == 0 {
        assert(percent_encoded(b) =~= Seq::<char>::empty());
        assert(vstd::utf8::encode_utf8(Seq::<char>::empty()) =~= Seq::<u8>::empty());
    } else {
        let x = b[0];
        let rest = b.subrange(1, b.len() as int);
        lemma_percent_encoded_front(b);
        lemma_encode_utf8_concat(percent_token(x), percent_encoded(rest));
        lemma_token_bytes(x);
        lemma_percent_round_trip(rest);
        let tb = vstd::utf8::encode_utf8(percent_token(x));
        let rb = vstd::utf8::encode_utf8(percent_encoded(rest));
        let all = tb + rb;
        if unreserved(x) {
            assert(all[0] == x);
            assert(all.subrange(1, all.len() as int) =~= rb);
            assert(percent_decoded(all) =~= seq![x] + rest);
        } else {
            assert(all[0] == 37u8);
            assert(all.subrange(3, all.len() as int) =~= rb);
            assert(hex_value(all[1]) == Some(x as int / 16));
            assert(hex_value(all[2]) == Some(x as int % 16));
            assert(percent_decoded(all) =~= seq![x] + rest);
        }
        assert(seq![x] + rest =~= b);
    }
}

/// Decoding a percent-encoded string (`url_decoded` of `percent_encoded`) gives it back.
pub proof fn lemma_url_round_trip(s: Seq<char>)
    ensures
        url_decoded(percent_encoded(vstd::utf8::encode_utf8(s))) == Some(s),
{
    lemma_percent_round_trip(vstd::utf8::encode_utf8(s));
    vstd::utf8::encode_utf8_valid_utf8(s);
    vstd::utf8::encode_utf8_decode_utf8(s);
}

/// Percent-encodes the UTF-8 bytes of `s` (`urlencoding::encode`): every byte but letters,
/// digits, `-`, `.`, `_` and `~` becomes `%` and two upper-case hexadecimal digits.
#[verifier::external_body]
fn url_encode(s: &str) -> (r: String)
    ensures
        r@ == percent_encoded(vstd::utf8::encode_utf8(s@)),
{
    urlencoding::encode(s).into_owned()
}

/// Decodes percent-escapes (`urlencoding::decode`): the result is `url_decoded` of `s`, none
/// where the decoded bytes are not UTF-8.
#[verifier::external_body]
fn url_decode(s: &str) -> (r: Option<String>)
    ensures
        match r {
            Some(d) => url_decoded(s@) == Some(d@),
            None => url_decoded(s@) is None,
        },
{
    urlencoding::decode(s).ok().map(|c| c.into_owned())
}

/// The path a `file://` line of a URI list stands for: the rest decoded, or as it is when it
/// does not decode.
pub open spec fn uri_line_path(line: Seq<char>) -> Seq<char> {
    let rest = line.subrange("file://"@.len() as int, line.len() as int);
    match url_decoded(rest) {
        Some(d) => d,
        None => rest,
    }
}

/// The paths of a `text/uri-list`, in order: the `file://` lines, decoded. (Which of them
/// still exist is checked by the caller.)
pub fn parse_uri_list(text: &str) -> (r: Vec<String>)
    ensures
        ({
            let ls = lines_of(text@).filter(|l: Seq<char>| has_prefix(l, "file://"@));
            &&& r@.len() == ls.len()
            &&& forall|k: int| 0 <= k < r@.len() ==> (#[trigger] r@[k])@ == uri_line_path(ls[k])
        }),
{
    let ls = lines(text);
    let mut out: Vec<String> = Vec::new();
    let mut i: usize = 0;
    let ghost all = lines_of(text@);
    while i < ls.len()
        invariant
            i <= ls@.len(),
            ls@.len() == all.len(),
            forall|k: int| 0 <= k < ls@.len() ==> (#[trigger] ls@[k])@ == all[k],
            ({
                let f = all.subrange(0, i as int).filter(|l: Seq<char>| has_prefix(l, "file://"@));
                &&& out@.len() == f.len()
                &&& forall|k: int| 0 <= k < out@.len() ==> (#[trigger] out@[k])@ == uri_line_path(f[k])
            }),
        decreases ls.len() - i,
    {
        proof {
            reveal(Seq::filter);
            assert(all.subrange(0, i + 1).drop_last() =~= all.subrange(0, i as int));
            assert(all.subrange(0, i + 1).last() == all[i as int]);
        }
        let l = ls[i].as_str();
        match strip_prefix(l, "file://") {
            Some(rest) => {
                let p = match url_decode(rest.as_str()) {
                    Some(d) => d,
                    None => rest,
                };
                out.push(p);
            },
            None => {},
        }
        i = i + 1;
    }
    proof {
        assert(all.subrange(0, i as int) =~= all);
    }
    out
}

/// The `text/uri-list` for some paths: each as `file://` and its percent-encoding, one per
/// line.
pub open spec fn uri_list_of(paths: Seq<Seq<char>>) -> Seq<char>
    decreases paths.len(),
{
    if paths.len() == 0 {
        Seq::empty()
    } else if paths.len() == 1 {
        "file://"@ + percent_encoded(vstd::utf8::encode_utf8(paths[0]))
    } else {
        uri_list_of(paths.drop_last()) + "\n"@ + "file://"@ + percent_encoded(
            vstd::utf8::encode_utf8(paths.last()),
        )
    }
}

/// The line of a URI list that stands for `path`: `file://` and its percent-encoding.
pub open spec fn uri_line(path: Seq<char>) -> Seq<char> {
    "file://"@ + percent_encoded(vstd::utf8::encode_utf8(path))
}

proof fn lemma_percent_plain(bytes: Seq<u8>)
    ensures
        forall|i: int|
            0 <= i < percent_encoded(bytes).len() ==> #[trigger] percent_encoded(bytes)[i] != '\n'
                && percent_encoded(bytes)[i] != '\r',
    decreases bytes.len(),
{
    if bytes.len() > 0 {
        lemma_percent_plain(bytes.drop_last());
        let b = bytes.last();
        let head = percent_encoded(bytes.drop_last());
        let tail: Seq<char> = if unreserved(b) {
            seq![b as char]
        } else {
            seq!['%', hex_digit(b as int / 16), hex_digit(b as int % 16)]
        };
        assert(percent_encoded(bytes) == head + tail);
        assert forall|i: int| 0 <= i < tail.len() implies #[trigger] tail[i] != '\n' && tail[i] != '\r' by {
            if unreserved(b) {
                assert(tail[i] == b as char);
            } else {
                let hi = b as int / 16;
                let lo = b as int % 16;
                assert(0 <= hi < 16 && 0 <= lo < 16);
            }
        }
        assert forall|i: int|
            0 <= i < percent_encoded(bytes).len() implies #[trigger] percent_encoded(bytes)[i] != '\n'
                && percent_encoded(bytes)[i] != '\r' by {
            if i < head.len() {
                assert(percent_encoded(bytes)[i] == head[i]);
            } else {
                assert(percent_encoded(bytes)[i] == tail[i - head.len()]);
            }
        }
    }
}

proof fn lemma_uri_line_plain(path: Seq<char>)
    ensures
        !uri_line(path).contains('\n'),
        uri_line(path).len() >= 7,
        uri_line(path).last() != '\r',
        has_prefix(uri_line(path), "file://"@),
        uri_line(path).subrange(7, uri_line(path).len() as int) == percent_encoded(
            vstd::utf8::encode_utf8(path),
        ),
{
    reveal_strlit("file://");
    let e = percent_encoded(vstd::utf8::encode_utf8(path));
    lemma_percent_plain(vstd::utf8::encode_utf8(path));
    let l = uri_line(path);
    assert(l.subrange(0, 7) =~= "file://"@);
    assert(l.subrange(7, l.len() as int) =~= e);
    assert(!l.contains('\n')) by {
        if l.contains('\n') {
            let i = choose|i: int| 0 <= i < l.len() && l[i] == '\n';
            if i >= 7 {
                assert(l[i] == e[i - 7]);
            }
        }
    }
    if e.len() > 0 {
        assert(l.last() == e[e.len() - 1]);
    } else {
        assert(l.last() == '/');
    }
}

proof fn lemma_split_uri_list(paths: Seq<Seq<char>>)
    requires
        paths.len() >= 1,
    ensures
        split_on(uri_list_of(paths), '\n') == paths.map_values(|p: Seq<char>| uri_line(p)),
    decreases paths.len(),
{
    reveal_strlit("\n");
    if paths.len() == 1 {
        lemma_uri_line_plain(paths[0]);
        lemma_split_single(uri_line(paths[0]), '\n');
        assert(paths.map_values(|p: Seq<char>| uri_line(p)) =~= seq![uri_line(paths[0])]);
    } else {
        let init = paths.drop_last();
        lemma_split_uri_list(init);
        lemma_uri_line_plain(paths.last());
        let prefix = uri_list_of(init);
        assert(uri_list_of(paths) =~= prefix + seq!['\n'] + uri_line(paths.last()));
        lemma_split_append(prefix, uri_line(paths.last()), '\n');
        assert(init.map_values(|p: Seq<char>| uri_line(p)).push(uri_line(paths.last()))
            =~= paths.map_values(|p: Seq<char>| uri_line(p)));
    }
}

proof fn lemma_lines_uri_list(paths: Seq<Seq<char>>)
    ensures
        lines_of(uri_list_of(paths)) == paths.map_values(|p: Seq<char>| uri_line(p)),
{
    let ls = paths.map_values(|p: Seq<char>| uri_line(p));
    if paths.len() == 0 {
        assert(split_on(Seq::<char>::empty(), '\n') == seq![Seq::<char>::empty()]);
        assert(lines_of(uri_list_of(paths)) =~= ls);
    } else {
        lemma_split_uri_list(paths);
        let ps = split_on(uri_list_of(paths), '\n');
        assert forall|k: int| 0 <= k < ls.len() implies #[trigger] strip_cr(ls[k]) == ls[k] by {
            lemma_uri_line_plain(paths[k]);
        }
        lemma_uri_line_plain(paths.last());
        assert(ps.last() == uri_line(paths.last()));
        assert(ps.drop_last().map_values(|l: Seq<char>| strip_cr(l)).push(ps.last()) =~= ls);
    }
}

proof fn lemma_filter_keeps_all(ls: Seq<Seq<char>>)
    requires
        forall|k: int| 0 <= k < ls.len() ==> has_prefix(#[trigger] ls[k], "file://"@),
    ensures
        ls.filter(|l: Seq<char>| has_prefix(l, "file://"@)) == ls,
    decreases ls.len(),
{
    reveal(Seq::filter);
    if ls.len() > 0 {
        lemma_filter_keeps_all(ls.drop_last());
        assert(has_prefix(ls[ls.len() - 1], "file://"@));
        assert(ls.drop_last().push(ls.last()) =~= ls);
    }
}

/// The `text/uri-list` for some paths (see `uri_list_of`). Reading it back (see
/// `parse_uri_list`) gives the paths again.
pub fn build_uri_list(paths: &Vec<String>) -> (r: String)
    ensures
        r@ == uri_list_of(views(paths@)),
        ({
            let ls = lines_of(r@).filter(|l: Seq<char>| has_prefix(l, "file://"@));
            &&& ls.len() == paths@.len()
            &&& forall|k: int| 0 <= k < ls.len() ==> uri_line_path(#[trigger] ls[k]) == paths@[k]@
        }),
{
    let mut out = String::new();
    let mut i: usize = 0;
    while i < paths.len()
        invariant
            i <= paths@.len(),
            out@ == uri_list_of(views(paths@.subrange(0, i as int))),
        decreases paths.len() - i,
    {
        let enc = url_encode(paths[i].as_str());
        proof {
            let p = views(paths@.subrange(0, i + 1));
            assert(p.drop_last() =~= views(paths@.subrange(0, i as int)));
            assert(p.last() == paths@[i as int]@);
        }
        if i == 0 {
            out = String::from_str("file://").concat(enc.as_str());
        } else {
            out = out.concat("\n").concat("file://").concat(enc.as_str());
        }
        i = i + 1;
    }
    proof {
        assert(paths@.subrange(0, i as int) =~= paths@);
        let v = views(paths@);
        lemma_lines_uri_list(v);
        let ls = v.map_values(|p: Seq<char>| uri_line(p));
        assert forall|k: int| 0 <= k < ls.len() implies has_prefix(#[trigger] ls[k], "file://"@) by {
            lemma_uri_line_plain(v[k]);
        }
        lemma_filter_keeps_all(ls);
        assert forall|k: int| 0 <= k < ls.len() implies uri_line_path(#[trigger] ls[k]) == paths@[k]@ by {
            lemma_uri_line_plain(v[k]);
            assert(v[k] == paths@[k]@);
            lemma_url_round_trip(paths@[k]@);
            reveal_strlit("file://");
        }
    }
    out
}

} // verus!
