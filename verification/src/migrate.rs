//! Moving state kept under the application's former name to its current name.

use vstd::prelude::*;
use crate::paths::{join_path, joined};

verus! {

/// Where state kept under the former name lives in the folder `root`, and where it belongs.
pub fn legacy_and_current(root: &str) -> (r: (String, String))
    ensures
        r.0@ == joined(root@, "ursly"@),
        r.1@ == joined(root@, "diaspor"@),
{
    (join_path(root, "ursly"), join_path(root, "diaspor"))
}

/// Whether the former folder is moved: only when it exists and the current one does not, so
/// that fresh installs and second runs change nothing.
pub fn should_move(legacy_exists: bool, current_exists: bool) -> (r: bool)
    ensures
        r == (legacy_exists && !current_exists),
{
    legacy_exists && !current_exists
}

} // verus!
