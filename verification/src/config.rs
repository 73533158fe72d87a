//! The settings the pipeline's surroundings hand in: where the
//! database file and the cover images live.  Loading them from disk
//! is the caller's concern; the library only carries the values.
use vstd::prelude::*;

verus! {

/// Locations of the store's backing file and the cover directory.
#[derive(Debug, Clone)]
pub struct Config {
    pub db_file: String,
    pub covers_directory: String,
}

/// A failure while the surroundings load or create the settings.
#[derive(Debug, Clone)]
pub enum ConfigError {
    Parse(String),
    Create(String),
    CreateFile(String),
}

} // verus!
