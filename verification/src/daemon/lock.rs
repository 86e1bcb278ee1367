//! Where the single-instance lock lives.

use vstd::prelude::*;
use crate::text::{join_path, joined};

verus! {

/// Name of the lock file in the runtime directory.
pub open spec fn lock_file_name() -> Seq<char> {
    seq!['g', 'e', 's', 's', 'o', '.', 'l', 'o', 'c', 'k']
}

/// Path of the lock file under the runtime directory.
pub fn lock_path(runtime_dir: &str) -> (p: String)
    ensures
        p@ == joined(runtime_dir@, lock_file_name()),
{
    proof {
        reveal_strlit("gesso.lock");
    }
    join_path(runtime_dir, "gesso.lock")
}

} // verus!
