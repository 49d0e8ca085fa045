use crate::filenames::{join_paths, path_join};
use vstd::prelude::*;

verus! {

/// Name of the configuration file, which lives in the home directory.
pub const CONFIG_BASENAME: &'static str = ".pm-spotlight";

/// The two lists the launcher is configured with: where to search
/// (`path` or `path{N}`, with `N` a depth limit) and what to skip
/// (wildcard patterns over full paths). Relative entries are taken from the
/// home directory.
#[derive(Clone)]
pub struct Config {
    pub search_paths: Vec<String>,
    pub skip_paths: Vec<String>,
}

/// Locates the configuration; reading and decoding it is left to the caller.
pub struct ConfigManager {}

impl ConfigManager {
    /// The configuration file's path for the home directory `home`.
    pub fn config_filename(home: &str) -> (r: String)
        ensures
            r@ == path_join(home@, CONFIG_BASENAME@),
    {
        join_paths(home, CONFIG_BASENAME)
    }
}

} // verus!
