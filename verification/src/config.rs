//! Where the configuration file lives.

use vstd::prelude::*;
use vstd::string::StringExecFns;
use crate::paths::{join_path, path_join};

verus! {

/// `dirs::config_dir`: the user's configuration directory, when the platform has one, as text
/// (lossily converted). Nothing is stated of it: it depends on the platform and the environment.
#[verifier::external_body]
fn platform_config_dir() -> (r: Option<String>) {
    match dirs::config_dir() {
        Some(p) => Some(p.to_string_lossy().into_owned()),
        None => None,
    }
}

/// The configuration file under a configuration directory (the working directory when there
/// is none): `<dir>/fsprompt/config.json`.
pub open spec fn config_file_in(dir: Option<Seq<char>>) -> Seq<char> {
    let base = match dir {
        Some(d) => d,
        None => "."@,
    };
    path_join(path_join(base, "fsprompt"@), "config.json"@)
}

/// Knows where the configuration is kept.
#[derive(Debug)]
pub struct ConfigManager {
    config_path: String,
}

impl ConfigManager {
    /// The path of the configuration file.
    pub closed spec fn path(&self) -> Seq<char> {
        self.config_path@
    }

    /// A manager for the configuration file under the platform's configuration directory.
    pub fn new() -> (r: Self)
        ensures
            exists|dir: Option<Seq<char>>| r.path() == config_file_in(dir),
    {
        let dir = platform_config_dir();
        let ghost d = match dir {
            Some(ref s) => Some(s@),
            None => None,
        };
        let r = Self::in_dir(dir);
        assert(r.path() == config_file_in(d));
        r
    }

    /// A manager for the configuration file under `dir` (the working directory when `None`).
    pub fn in_dir(dir: Option<String>) -> (r: Self)
        ensures
            r.path() == config_file_in(match dir {
                Some(d) => Some(d@),
                None => None,
            }),
    {
        let base = match dir {
            Some(d) => d,
            None => String::from_str("."),
        };
        let app_dir = join_path(base.as_str(), "fsprompt");
        let config_path = join_path(app_dir.as_str(), "config.json");
        ConfigManager { config_path }
    }

    /// The path of the configuration file.
    pub fn config_path(&self) -> (r: &str)
        ensures
            r@ == self.path(),
    {
        self.config_path.as_str()
    }
}

} // verus!
