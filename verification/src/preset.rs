//! Where the tool keeps its files.
use vstd::prelude::*;

verus! {

/// The directory, under the user's home directory, used where `FFG_HOME` is not set.
pub open spec fn default_home_dir_name() -> Seq<char> {
    ".ffg"@
}

/// Where the tool's home directory is.
pub enum HomeDir {
    /// The directory that `FFG_HOME` names.
    Configured(String),
    /// The directory of this name under the user's home directory.
    UnderUserHome(String),
}

/// The tool's home directory: the one that `FFG_HOME` names where it is set, else
/// `.ffg` under the user's home directory.
pub fn resolve_home(configured: Option<String>) -> (home: HomeDir)
    ensures
        match configured {
            Some(dir) => home matches HomeDir::Configured(d) && d@ == dir@,
            None => home matches HomeDir::UnderUserHome(name) && name@ == default_home_dir_name(),
        },
{
    match configured {
        Some(dir) => HomeDir::Configured(dir),
        None => HomeDir::UnderUserHome(String::from_str(".ffg")),
    }
}

} // verus!
