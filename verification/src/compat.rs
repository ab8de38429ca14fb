//! Where compatibility tools and Wine prefixes live, and whether their
//! directories have been made yet.

use vstd::prelude::*;
use crate::paths::{join_path, spec_join_path};

verus! {

pub struct CompatibilityManager {
    pub compat_tools_path: String,
    pub prefixes_path: String,
    /// Whether both directories are known to exist.
    pub created_paths: bool,
}

impl CompatibilityManager {
    /// The directories under the data root; nothing is created yet.
    pub fn new(data_root: &str) -> (r: Self)
        ensures
            r.compat_tools_path@ == spec_join_path(data_root@, "compatibility_tools"@),
            r.prefixes_path@ == spec_join_path(data_root@, "prefixes"@),
            !r.created_paths,
    {
        CompatibilityManager {
            compat_tools_path: join_path(data_root, "compatibility_tools"),
            prefixes_path: join_path(data_root, "prefixes"),
            created_paths: false,
        }
    }

    /// Whether the directories still have to be checked and made.
    pub fn needs_paths(&self) -> (r: bool)
        ensures
            r == !self.created_paths,
    {
        !self.created_paths
    }

    /// Records that both directories exist.
    pub fn mark_paths_created(&mut self)
        ensures
            final(self).created_paths,
            final(self).compat_tools_path == old(self).compat_tools_path,
            final(self).prefixes_path == old(self).prefixes_path,
    {
        self.created_paths = true;
    }
}

} // verus!
