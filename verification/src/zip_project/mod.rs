//! ZIP project extraction and handling for Python submissions.

pub mod extractor;
pub mod tree;

use vstd::prelude::*;

verus! {

/// Largest accepted size of one extracted file, in bytes.
pub const MAX_FILE_SIZE: u64 = 10 * 1024 * 1024;

/// Largest accepted size of an archive, in bytes.
pub const MAX_ARCHIVE_SIZE: u64 = 50 * 1024 * 1024;

/// Names of the files that can start a project, most preferred first.
pub open spec fn spec_entry_point_files() -> Seq<Seq<char>> {
    seq!["main.py"@, "app.py"@, "__main__.py"@, "run.py"@, "server.py"@]
}

/// Names of the files that can start a project, most preferred first.
pub fn entry_point_files() -> (v: Vec<&'static str>)
    ensures
        v@.map_values(|s: &str| s@) == spec_entry_point_files(),
{
    let v = vec!["main.py", "app.py", "__main__.py", "run.py", "server.py"];
    assert(v@.map_values(|s: &str| s@) =~= spec_entry_point_files());
    v
}

} // verus!
