//! Copies and renames inside an S3 bucket, one decision at a time: the library says what to
//! check, copy or delete next, the caller does it and hands back what came of it.

use vstd::prelude::*;
use crate::paths::{join_path, joined, key_of};
use crate::s3::{check_copy_keys, is_permission_error, CopyKeyProblem};
use crate::text::{has_prefix, lowercase, contains_seq, same_text, strip_prefix};

verus! {

/// What came of the last thing asked for.
pub enum TransferEvent {
    /// Whether the key asked about exists.
    Exists(bool),
    /// Whether the key asked about is a directory.
    IsDir(bool),
    /// The names listed under the prefix asked about.
    Listed(Vec<String>),
    /// Every child was copied.
    ChildrenCopied,
    /// The object (or, for a rename, the whole source) was copied.
    Copied,
    /// Reading the source object failed with this error.
    ReadFailed(String),
    /// Writing the destination object failed with this error.
    WriteFailed(String),
    /// The directory marker was copied, or its copy failed (which is not an error).
    MarkerCopied,
    /// The source was deleted.
    Removed,
}

/// Where a copy stands.
#[derive(Clone, Copy, PartialEq, Eq, Debug, Structural)]
pub enum CopyPhase {
    DestinationCheck,
    SourceCheck,
    Stat,
    Listing,
    Children,
    MarkerCheck,
    MarkerCopy,
    ObjectCopy,
    Done,
}

/// What a copy needs done next.
#[derive(Debug)]
pub enum CopyAction {
    /// Find out whether this key exists.
    CheckExists(String),
    /// Find out whether this key is a directory.
    Stat(String),
    /// List the names under this prefix.
    List(String),
    /// Copy each pair of paths (from, to), each as a copy of its own with the same options.
    CopyChildren(Vec<(String, String)>),
    /// Copy one object by reading it and writing it back under the new key.
    CopyObject { from: String, to: String },
    /// Copy the directory marker, ignoring a failure.
    CopyMarker { from: String, to: String },
    /// The copy is done.
    Done,
    /// The copy failed with this message.
    Fail(String),
}

/// A copy of `from` to `to` (paths) in a bucket, with their keys.
pub struct S3Copy {
    pub from: String,
    pub to: String,
    pub from_key: String,
    pub to_key: String,
    pub recursive: bool,
    pub phase: CopyPhase,
}

/// The views of a list of path pairs.
pub open spec fn pair_views(v: Seq<(String, String)>) -> Seq<(Seq<char>, Seq<char>)> {
    v.map_values(|p: (String, String)| (p.0@, p.1@))
}

/// The name `name` listed under `prefix`, relative to it (all of it when it does not start
/// with the prefix).
pub open spec fn relative_to(name: Seq<char>, prefix: Seq<char>) -> Seq<char> {
    if has_prefix(name, prefix) {
        name.subrange(prefix.len() as int, name.len() as int)
    } else {
        name
    }
}

/// The pairs of paths a directory copy from `from` to `to` copies for the names listed
/// under `prefix`, in their order.
pub open spec fn child_pairs(from: Seq<char>, to: Seq<char>, prefix: Seq<char>, names: Seq<Seq<char>>) -> Seq<
    (Seq<char>, Seq<char>),
> {
    Seq::new(names.len(), |k: int| (joined(from, relative_to(names[k], prefix)), joined(to, relative_to(names[k], prefix))))
}

/// Whether a copy in `phase` asked for what `e` answers.
pub open spec fn copy_expects(phase: CopyPhase, e: TransferEvent) -> bool {
    match (phase, e) {
        (CopyPhase::DestinationCheck, TransferEvent::Exists(_)) => true,
        (CopyPhase::SourceCheck, TransferEvent::Exists(_)) => true,
        (CopyPhase::Stat, TransferEvent::IsDir(_)) => true,
        (CopyPhase::Listing, TransferEvent::Listed(_)) => true,
        (CopyPhase::Children, TransferEvent::ChildrenCopied) => true,
        (CopyPhase::MarkerCheck, TransferEvent::Exists(_)) => true,
        (CopyPhase::MarkerCopy, TransferEvent::MarkerCopied) => true,
        (CopyPhase::ObjectCopy, TransferEvent::Copied) => true,
        (CopyPhase::ObjectCopy, TransferEvent::ReadFailed(_)) => true,
        (CopyPhase::ObjectCopy, TransferEvent::WriteFailed(_)) => true,
        _ => false,
    }
}

fn child_pairs_of(from: &str, to: &str, prefix: &str, names: &Vec<String>) -> (r: Vec<(String, String)>)
    ensures
        pair_views(r@) == child_pairs(from@, to@, prefix@, names@.map_values(|n: String| n@)),
{
    let ghost ns = names@.map_values(|n: String| n@);
    let mut out: Vec<(String, String)> = Vec::new();
    let mut i: usize = 0;
    while i < names.len()
        invariant
            i <= names@.len(),
            ns == names@.map_values(|n: String| n@),
            out@.len() == i,
            forall|k: int| 0 <= k < i ==> (#[trigger] out@[k]).0@ == joined(from@, relative_to(ns[k], prefix@))
                && out@[k].1@ == joined(to@, relative_to(ns[k], prefix@)),
        decreases names.len() - i,
    {
        let rel = match strip_prefix(names[i].as_str(), prefix) {
            Some(r) => r,
            None => names[i].clone(),
        };
        assert(rel@ == relative_to(ns[i as int], prefix@));
        let pair = (join_path(from, rel.as_str()), join_path(to, rel.as_str()));
        out.push(pair);
        i = i + 1;
    }
    assert(pair_views(out@) =~= child_pairs(from@, to@, prefix@, ns));
    out
}

impl S3Copy {
    /// Starts copying `from` to `to`: neither key may be the root; then, unless `overwrite`
    /// allows replacing it, the destination is checked first, else the source.
    pub fn start(from: &str, to: &str, overwrite: bool, recursive: bool) -> (r: Result<(S3Copy, CopyAction), String>)
        ensures
            key_of(from@).len() == 0 ==> (r matches Err(m) && m@ == "Source path cannot be empty"@),
            key_of(from@).len() != 0 && key_of(to@).len() == 0 ==> (r matches Err(m) && m@
                == "Destination path cannot be empty - cannot copy to root. Specify a file name."@),
            key_of(from@).len() != 0 && key_of(to@).len() != 0 ==> (r matches Ok((c, a)) && {
                &&& c.from@ == from@ && c.to@ == to@
                &&& c.from_key@ == key_of(from@) && c.to_key@ == key_of(to@)
                &&& c.recursive == recursive
                &&& if overwrite {
                    c.phase == CopyPhase::SourceCheck && (a matches CopyAction::CheckExists(k) && k@ == key_of(from@))
                } else {
                    c.phase == CopyPhase::DestinationCheck && (a matches CopyAction::CheckExists(k) && k@ == key_of(to@))
                }
            }),
    {
        match check_copy_keys(from, to) {
            Err(CopyKeyProblem::EmptySource) => Err(String::from_str("Source path cannot be empty")),
            Err(CopyKeyProblem::EmptyDestination) => Err(String::from_str(
                "Destination path cannot be empty - cannot copy to root. Specify a file name.",
            )),
            Ok((fk, tk)) => {
                let (phase, a) = if overwrite {
                    (CopyPhase::SourceCheck, CopyAction::CheckExists(fk.clone()))
                } else {
                    (CopyPhase::DestinationCheck, CopyAction::CheckExists(tk.clone()))
                };
                Ok((S3Copy { from: from.to_string(), to: to.to_string(), from_key: fk, to_key: tk, recursive, phase }, a))
            },
        }
    }

    /// Whether the copy asked for what `e` answers (see `copy_expects`).
    pub fn expects(&self, e: &TransferEvent) -> (r: bool)
        ensures
            r == copy_expects(self.phase, *e),
    {
        match (self.phase, e) {
            (CopyPhase::DestinationCheck, TransferEvent::Exists(_)) => true,
            (CopyPhase::SourceCheck, TransferEvent::Exists(_)) => true,
            (CopyPhase::Stat, TransferEvent::IsDir(_)) => true,
            (CopyPhase::Listing, TransferEvent::Listed(_)) => true,
            (CopyPhase::Children, TransferEvent::ChildrenCopied) => true,
            (CopyPhase::MarkerCheck, TransferEvent::Exists(_)) => true,
            (CopyPhase::MarkerCopy, TransferEvent::MarkerCopied) => true,
            (CopyPhase::ObjectCopy, TransferEvent::Copied) => true,
            (CopyPhase::ObjectCopy, TransferEvent::ReadFailed(_)) => true,
            (CopyPhase::ObjectCopy, TransferEvent::WriteFailed(_)) => true,
            _ => false,
        }
    }

    /// One step of the copy: an existing destination (when checked) or a missing source fails
    /// it; a directory copied recursively has every name under `from_key/` copied as a copy
    /// of its own, then its marker copied when it has one; anything else is copied as one
    /// object.
    pub fn step(&mut self, e: TransferEvent) -> (r: CopyAction)
        requires
            copy_expects(old(self).phase, e),
        ensures
            final(self).from == old(self).from && final(self).to == old(self).to,
            final(self).from_key == old(self).from_key && final(self).to_key == old(self).to_key,
            final(self).recursive == old(self).recursive,
            ({
                let fk = old(self).from_key@;
                let tk = old(self).to_key@;
                match (old(self).phase, e) {
                    (CopyPhase::DestinationCheck, TransferEvent::Exists(true)) => final(self).phase == CopyPhase::Done
                        && (r matches CopyAction::Fail(m) && m@ == "Destination already exists: "@ + tk),
                    (CopyPhase::DestinationCheck, TransferEvent::Exists(false)) => final(self).phase
                        == CopyPhase::SourceCheck && (r matches CopyAction::CheckExists(k) && k@ == fk),
                    (CopyPhase::SourceCheck, TransferEvent::Exists(false)) => final(self).phase == CopyPhase::Done
                        && (r matches CopyAction::Fail(m) && m@ == "Source does not exist: "@ + fk),
                    (CopyPhase::SourceCheck, TransferEvent::Exists(true)) => final(self).phase == CopyPhase::Stat
                        && (r matches CopyAction::Stat(k) && k@ == fk),
                    (CopyPhase::Stat, TransferEvent::IsDir(d)) => if d && old(self).recursive {
                        final(self).phase == CopyPhase::Listing && (r matches CopyAction::List(p) && p@ == fk.push('/'))
                    } else {
                        final(self).phase == CopyPhase::ObjectCopy && (r matches CopyAction::CopyObject { from, to }
                            && from@ == fk && to@ == tk)
                    },
                    (CopyPhase::Listing, TransferEvent::Listed(names)) => final(self).phase == CopyPhase::Children
                        && (r matches CopyAction::CopyChildren(ps) && pair_views(ps@) == child_pairs(
                        old(self).from@,
                        old(self).to@,
                        fk.push('/'),
                        names@.map_values(|n: String| n@),
                    )),
                    (CopyPhase::Children, TransferEvent::ChildrenCopied) => final(self).phase == CopyPhase::MarkerCheck
                        && (r matches CopyAction::CheckExists(k) && k@ == fk.push('/')),
                    (CopyPhase::MarkerCheck, TransferEvent::Exists(b)) => if b {
                        final(self).phase == CopyPhase::MarkerCopy && (r matches CopyAction::CopyMarker { from, to }
                            && from@ == fk.push('/') && to@ == tk.push('/'))
                    } else {
                        final(self).phase == CopyPhase::Done && r is Done
                    },
                    (CopyPhase::MarkerCopy, TransferEvent::MarkerCopied) => final(self).phase == CopyPhase::Done && r is Done,
                    (CopyPhase::ObjectCopy, TransferEvent::Copied) => final(self).phase == CopyPhase::Done && r is Done,
                    (CopyPhase::ObjectCopy, TransferEvent::ReadFailed(x)) => final(self).phase == CopyPhase::Done
                        && (r matches CopyAction::Fail(m) && m@ == "Failed to read source object '"@ + fk + "': "@ + x@),
                    (CopyPhase::ObjectCopy, TransferEvent::WriteFailed(x)) => final(self).phase == CopyPhase::Done
                        && (r matches CopyAction::Fail(m) && m@ == "Failed to write destination object '"@ + tk + "': "@
                        + x@),
                    _ => true,
                }
            }),
    {
        proof {
            reveal_strlit("/");
            assert("/"@ =~= seq!['/']);
        }
        match (self.phase, e) {
            (CopyPhase::DestinationCheck, TransferEvent::Exists(b)) => {
                if b {
                    self.phase = CopyPhase::Done;
                    CopyAction::Fail(String::from_str("Destination already exists: ").concat(self.to_key.as_str()))
                } else {
                    self.phase = CopyPhase::SourceCheck;
                    CopyAction::CheckExists(self.from_key.clone())
                }
            },
            (CopyPhase::SourceCheck, TransferEvent::Exists(b)) => {
                if !b {
                    self.phase = CopyPhase::Done;
                    CopyAction::Fail(String::from_str("Source does not exist: ").concat(self.from_key.as_str()))
                } else {
                    self.phase = CopyPhase::Stat;
                    CopyAction::Stat(self.from_key.clone())
                }
            },
            (CopyPhase::Stat, TransferEvent::IsDir(d)) => {
                if d && self.recursive {
                    self.phase = CopyPhase::Listing;
                    CopyAction::List(self.from_key.clone().concat("/"))
                } else {
                    self.phase = CopyPhase::ObjectCopy;
                    CopyAction::CopyObject { from: self.from_key.clone(), to: self.to_key.clone() }
                }
            },
            (CopyPhase::Listing, TransferEvent::Listed(names)) => {
                let prefix = self.from_key.clone().concat("/");
                assert(prefix@ =~= self.from_key@.push('/'));
                let ps = child_pairs_of(self.from.as_str(), self.to.as_str(), prefix.as_str(), &names);
                self.phase = CopyPhase::Children;
                CopyAction::CopyChildren(ps)
            },
            (CopyPhase::Children, TransferEvent::ChildrenCopied) => {
                self.phase = CopyPhase::MarkerCheck;
                CopyAction::CheckExists(self.from_key.clone().concat("/"))
            },
            (CopyPhase::MarkerCheck, TransferEvent::Exists(b)) => {
                if b {
                    self.phase = CopyPhase::MarkerCopy;
                    CopyAction::CopyMarker {
                        from: self.from_key.clone().concat("/"),
                        to: self.to_key.clone().concat("/"),
                    }
                } else {
                    self.phase = CopyPhase::Done;
                    CopyAction::Done
                }
            },
            (CopyPhase::ObjectCopy, TransferEvent::ReadFailed(x)) => {
                self.phase = CopyPhase::Done;
                CopyAction::Fail(String::from_str("Failed to read source object '").concat(self.from_key.as_str()).concat(
                    "': ",
                ).concat(x.as_str()))
            },
            (CopyPhase::ObjectCopy, TransferEvent::WriteFailed(x)) => {
                self.phase = CopyPhase::Done;
                CopyAction::Fail(String::from_str("Failed to write destination object '").concat(self.to_key.as_str()).concat(
                    "': ",
                ).concat(x.as_str()))
            },
            _ => {
                self.phase = CopyPhase::Done;
                CopyAction::Done
            },
        }
    }
}

/// Where a rename stands.
#[derive(Clone, Copy, PartialEq, Eq, Debug, Structural)]
pub enum RenamePhase {
    SourceCheck,
    DestinationCheck,
    Stat,
    Copying,
    Removing,
    Done,
}

/// What a rename needs done next.
#[derive(Debug)]
pub enum RenameAction {
    /// Find out whether this key exists.
    CheckExists(String),
    /// Find out whether this key is a directory.
    Stat(String),
    /// Copy `from` to `to` (see `S3Copy`) with these options.
    Copy { from: String, to: String, overwrite: bool, recursive: bool },
    /// Delete this path and everything under it.
    RemoveTree(String),
    /// Delete this single object.
    RemoveObject(String),
    /// The rename is done.
    Done,
    /// The rename failed with this message.
    Fail(String),
}

/// A rename of `from` to `to` (paths) in a bucket: S3 has no rename, so the source is copied
/// and then deleted.
pub struct S3Rename {
    pub from: String,
    pub to: String,
    pub from_key: String,
    pub to_key: String,
    pub is_dir: bool,
    pub phase: RenamePhase,
}

/// Whether a rename in `phase` asked for what `e` answers.
pub open spec fn rename_expects(phase: RenamePhase, e: TransferEvent) -> bool {
    match (phase, e) {
        (RenamePhase::SourceCheck, TransferEvent::Exists(_)) => true,
        (RenamePhase::DestinationCheck, TransferEvent::Exists(_)) => true,
        (RenamePhase::Stat, TransferEvent::IsDir(_)) => true,
        (RenamePhase::Copying, TransferEvent::Copied) => true,
        (RenamePhase::Removing, TransferEvent::Removed) => true,
        _ => false,
    }
}

/// The message for a failed check of the rename's source (`source`) or destination at `key`
/// with error `e`: a refused permission names the permissions it needs.
pub open spec fn rename_check_message(source: bool, key: Seq<char>, e: Seq<char>) -> Seq<char> {
    let denied = {
        let l = lowercase(e);
        contains_seq(l, "permissiondenied"@) || contains_seq(l, "403"@) || contains_seq(l, "accessdenied"@)
    };
    if source {
        if denied {
            "Permission denied: Cannot access source file '"@ + key
                + "'. Check IAM permissions: s3:GetObject, s3:ListBucket. Error: "@ + e
        } else {
            "Failed to check if source file exists: "@ + e
        }
    } else {
        if denied {
            "Permission denied: Cannot check if destination exists '"@ + key
                + "'. Check IAM permissions: s3:GetObject, s3:ListBucket. Error: "@ + e
        } else {
            "Failed to check if destination exists: "@ + e
        }
    }
}

/// The message for a failed check (see `rename_check_message`).
pub fn rename_check_failure(source: bool, key: &str, error: &str) -> (r: String)
    ensures
        r@ == rename_check_message(source, key@, error@),
{
    let denied = is_permission_error(error);
    if source {
        if denied {
            String::from_str("Permission denied: Cannot access source file '").concat(key).concat(
                "'. Check IAM permissions: s3:GetObject, s3:ListBucket. Error: ",
            ).concat(error)
        } else {
            String::from_str("Failed to check if source file exists: ").concat(error)
        }
    } else {
        if denied {
            String::from_str("Permission denied: Cannot check if destination exists '").concat(key).concat(
                "'. Check IAM permissions: s3:GetObject, s3:ListBucket. Error: ",
            ).concat(error)
        } else {
            String::from_str("Failed to check if destination exists: ").concat(error)
        }
    }
}

impl S3Rename {
    /// Starts renaming `from` to `to`: the source is checked first.
    pub fn start(from: &str, to: &str) -> (r: (S3Rename, RenameAction))
        ensures
            r.0.from@ == from@ && r.0.to@ == to@,
            r.0.from_key@ == key_of(from@) && r.0.to_key@ == key_of(to@),
            r.0.phase == RenamePhase::SourceCheck,
            r.1 matches RenameAction::CheckExists(k) && k@ == key_of(from@),
    {
        let fk = crate::paths::to_key(from);
        let tk = crate::paths::to_key(to);
        let a = RenameAction::CheckExists(fk.clone());
        (S3Rename { from: from.to_string(), to: to.to_string(), from_key: fk, to_key: tk, is_dir: false, phase: RenamePhase::SourceCheck }, a)
    }

    /// Whether the rename asked for what `e` answers (see `rename_expects`).
    pub fn expects(&self, e: &TransferEvent) -> (r: bool)
        ensures
            r == rename_expects(self.phase, *e),
    {
        match (self.phase, e) {
            (RenamePhase::SourceCheck, TransferEvent::Exists(_)) => true,
            (RenamePhase::DestinationCheck, TransferEvent::Exists(_)) => true,
            (RenamePhase::Stat, TransferEvent::IsDir(_)) => true,
            (RenamePhase::Copying, TransferEvent::Copied) => true,
            (RenamePhase::Removing, TransferEvent::Removed) => true,
            _ => false,
        }
    }

    /// One step of the rename: a missing source fails it; a source renamed onto its own key
    /// is left as it is; an existing destination fails it; otherwise the source is copied
    /// over (recursively when it is a directory) and then deleted (the whole tree for a
    /// directory).
    pub fn step(&mut self, e: TransferEvent) -> (r: RenameAction)
        requires
            rename_expects(old(self).phase, e),
        ensures
            final(self).from == old(self).from && final(self).to == old(self).to,
            final(self).from_key == old(self).from_key && final(self).to_key == old(self).to_key,
            ({
                let fk = old(self).from_key@;
                let tk = old(self).to_key@;
                match (old(self).phase, e) {
                    (RenamePhase::SourceCheck, TransferEvent::Exists(false)) => final(self).phase == RenamePhase::Done
                        && (r matches RenameAction::Fail(m) && m@ == "Source does not exist: "@ + fk),
                    (RenamePhase::SourceCheck, TransferEvent::Exists(true)) => if fk == tk {
                        final(self).phase == RenamePhase::Done && r is Done
                    } else {
                        final(self).phase == RenamePhase::DestinationCheck && (r matches RenameAction::CheckExists(k)
                            && k@ == tk)
                    },
                    (RenamePhase::DestinationCheck, TransferEvent::Exists(true)) => final(self).phase
                        == RenamePhase::Done && (r matches RenameAction::Fail(m) && m@ == "Destination already exists: "@
                        + tk),
                    (RenamePhase::DestinationCheck, TransferEvent::Exists(false)) => final(self).phase
                        == RenamePhase::Stat && (r matches RenameAction::Stat(k) && k@ == fk),
                    (RenamePhase::Stat, TransferEvent::IsDir(d)) => final(self).phase == RenamePhase::Copying
                        && final(self).is_dir == d && (r matches RenameAction::Copy { from, to, overwrite, recursive }
                        && from == old(self).from && to == old(self).to && overwrite && recursive == d),
                    (RenamePhase::Copying, TransferEvent::Copied) => final(self).phase == RenamePhase::Removing && if old(
                        self,
                    ).is_dir {
                        r matches RenameAction::RemoveTree(p) && p == old(self).from
                    } else {
                        r matches RenameAction::RemoveObject(p) && p == old(self).from
                    },
                    (RenamePhase::Removing, TransferEvent::Removed) => final(self).phase == RenamePhase::Done && r is Done,
                    _ => true,
                }
            }),
    {
        match (self.phase, e) {
            (RenamePhase::SourceCheck, TransferEvent::Exists(b)) => {
                if !b {
                    self.phase = RenamePhase::Done;
                    RenameAction::Fail(String::from_str("Source does not exist: ").concat(self.from_key.as_str()))
                } else if same_text(self.from_key.as_str(), self.to_key.as_str()) {
                    self.phase = RenamePhase::Done;
                    RenameAction::Done
                } else {
                    self.phase = RenamePhase::DestinationCheck;
                    RenameAction::CheckExists(self.to_key.clone())
                }
            },
            (RenamePhase::DestinationCheck, TransferEvent::Exists(b)) => {
                if b {
                    self.phase = RenamePhase::Done;
                    RenameAction::Fail(String::from_str("Destination already exists: ").concat(self.to_key.as_str()))
                } else {
                    self.phase = RenamePhase::Stat;
                    RenameAction::Stat(self.from_key.clone())
                }
            },
            (RenamePhase::Stat, TransferEvent::IsDir(d)) => {
                self.is_dir = d;
                self.phase = RenamePhase::Copying;
                RenameAction::Copy { from: self.from.clone(), to: self.to.clone(), overwrite: true, recursive: d }
            },
            (RenamePhase::Copying, TransferEvent::Copied) => {
                self.phase = RenamePhase::Removing;
                if self.is_dir {
                    RenameAction::RemoveTree(self.from.clone())
                } else {
                    RenameAction::RemoveObject(self.from.clone())
                }
            },
            _ => {
                self.phase = RenamePhase::Done;
                RenameAction::Done
            },
        }
    }
}

} // verus!
