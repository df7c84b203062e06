//! Where files are kept.

use vstd::prelude::*;

verus! {

/// A path of the operating system.
#[verifier::external_type_specification]
#[verifier::external_body]
pub struct ExPathBuf(std::path::PathBuf);

/// `dirs::cache_dir`: the user's cache directory, where the platform names one.
/// It depends on the user and the machine, so nothing is claimed of it.
pub assume_specification[ dirs::cache_dir ]() -> (dir: Option<std::path::PathBuf>)
;

/// `dirs::config_dir`: the user's configuration directory, where the platform
/// names one. It depends on the user and the machine, so nothing is claimed of it.
pub assume_specification[ dirs::config_dir ]() -> (dir: Option<std::path::PathBuf>)
;

/// The directory that the program keeps its files under.
pub const APP_DIR: &'static str = "perihelion";

/// A place in the file system: the names in `parts`, one under the other, below
/// `base`, or below the current directory where there is no base.
#[derive(Debug)]
pub struct StoragePath {
    pub base: Option<std::path::PathBuf>,
    pub parts: Vec<&'static str>,
}

impl StoragePath {
    /// The names below the base.
    pub open spec fn names(&self) -> Seq<Seq<char>> {
        Seq::new(self.parts@.len(), |i: int| self.parts@[i]@)
    }
}

/// Where the configuration is kept, below the user's configuration directory.
pub fn config_path() -> (path: StoragePath)
    ensures
        path.names() == seq![APP_DIR@, "config.json"@],
{
    config_path_in(dirs::config_dir())
}

/// Where the configuration is kept, below `base`.
pub fn config_path_in(base: Option<std::path::PathBuf>) -> (path: StoragePath)
    ensures
        path.base == base,
        path.names() == seq![APP_DIR@, "config.json"@],
{
    let mut parts: Vec<&'static str> = Vec::new();
    parts.push(APP_DIR);
    parts.push("config.json");
    let path = StoragePath { base, parts };
    assert(path.names() =~= seq![APP_DIR@, "config.json"@]);
    path
}

}
