//! User settings and their defaults.

use vstd::prelude::*;

verus! {

/// The settings the user can change.
pub struct Settings {
    pub autostart: bool,
    pub max_download_threads: usize,
}

impl Default for Settings {
    /// Autostart off, four download threads.
    fn default() -> (r: Self)
        ensures
            r.autostart == false,
            r.max_download_threads == 4,
    {
        Settings { autostart: false, max_download_threads: 4 }
    }
}

} // verus!
