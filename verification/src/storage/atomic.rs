//! Writing a file whole: through a temporary file next to it, renamed over it.
use vstd::prelude::*;

use crate::pathstr::{file_name, path_file_name, path_with_file_name, with_file_name};
use crate::text::concat_str;

verus! {

/// The temporary file a write to `p` goes through: `.{name}.tmp` in the
/// same directory, `name` being the file name of `p` (`atomic` when it has
/// none).  `win` says whether paths follow Windows rules.
pub open spec fn spec_temp_path(p: Seq<char>, win: bool) -> Seq<char> {
    let name = match path_file_name(p, win) {
        Some(n) => n,
        None => "atomic"@,
    };
    path_with_file_name(p, "."@ + name + ".tmp"@, win)
}

/// The temporary file a write to `path` goes through.
pub fn temp_path_for(path: &str, win: bool) -> (r: String)
    ensures
        r@ == spec_temp_path(path@, win),
{
    let name = match file_name(path, win) {
        Some(n) => n,
        None => String::from_str("atomic"),
    };
    let mut t = concat_str(".", name.as_str());
    t.append(".tmp");
    with_file_name(path, t.as_str(), win)
}

} // verus!
