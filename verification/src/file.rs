//! The file backend's layout: one plain-text file per calendar day, named
//! `YYYY-MM-DD.txt`, inside one storage directory. The library fixes the
//! directory and the full path of each day's file; reading and writing the
//! files happens outside it, through the shared `Store` model.

use vstd::prelude::*;

use crate::config::Config;
use crate::day::{entry_file_name, Day};

verus! {

/// The relative storage directory used when no explicit path is
/// configured.
pub open spec fn default_storage_path() -> Seq<char> {
    "./diary"@
}

/// A diary kept as one file per day under a root directory.
pub struct Filesystem {
    pub root: String,
}

impl Filesystem {
    /// The storage root the backend works under: the configured path where
    /// one was set, else a `diary` directory under the given working
    /// directory.
    pub fn resolve_root(config: &Config, working_dir: &str) -> (r: String)
        ensures
            config.file_path@ != default_storage_path() ==> r@ == config.file_path@,
            config.file_path@ == default_storage_path() ==> r@ == working_dir@ + "/diary"@,
    {
        let default_path: String = "./diary".to_owned();
        if config.file_path == default_path {
            let mut s = working_dir.to_owned();
            s.append("/diary");
            proof {
                assert(s@ =~= working_dir@ + "/diary"@);
            }
            s
        } else {
            config.file_path.clone()
        }
    }

    /// A backend rooted at an already-created directory.
    pub fn from_root(root: String) -> (r: Filesystem)
        ensures
            r.root == root,
    {
        Filesystem { root }
    }

    /// The full path of the file that stores `day`'s entry:
    /// `<root>/YYYY-MM-DD.txt`.
    pub fn entry_path(&self, day: &Day) -> (r: String)
        requires
            day.wf(),
        ensures
            r@ == self.root@ + "/"@ + entry_file_name(*day),
    {
        let mut s = self.root.clone();
        s.append("/");
        let name = day.file_name();
        s.append(name.as_str());
        proof {
            assert(s@ =~= self.root@ + "/"@ + entry_file_name(*day));
        }
        s
    }
}

} // verus!
