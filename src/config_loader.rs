//! Where the settings file is looked for; reading it happens outside the
//! library.

use vstd::prelude::*;

verus! {

/// Name of the directory of the settings file under a configuration
/// directory.
pub const CONFIG_DIR: &'static str = "mcnotify";

/// Name of the settings file.
pub const CONFIG_PATH: &'static str = "config.toml";

/// Finds and reads the settings file.
pub struct ConfigLoader;

impl ConfigLoader {
    pub fn new() -> (r: Self) {
        Self {  }
    }
}

} // verus!
