//! The vault's well-known locations, as plain path strings. Resolving the
//! user's home directory, and every other look at the real file system, is
//! the caller's business.

use vstd::prelude::*;
use vstd::string::StringExecFns;

verus! {

/// Where one vault lives: its directory and its key file.
pub struct Config {
    /// The vault directory, `<home>/.locker`.
    pub locker_dir: String,
    /// The symmetric key file, `<locker_dir>/locker.key`.
    pub key_file: String,
}

impl Config {
    /// The vault locations under the given home directory.
    pub fn from_home(home: &str) -> (c: Config)
        ensures
            c.locker_dir@ == home@ + "/.locker"@,
            c.key_file@ == c.locker_dir@ + "/locker.key"@,
    {
        let mut locker_dir = home.to_owned();
        locker_dir.append("/.locker");
        let mut key_file = locker_dir.clone();
        key_file.append("/locker.key");
        Config { locker_dir, key_file }
    }
}

} // verus!
