use vstd::prelude::*;

verus! {

/// The errors that the clock's logic reports.
#[derive(Debug, PartialEq, Eq)]
pub enum Error {
    /// The configuration path given in the environment is not valid Unicode,
    /// or no configuration directory is known.
    NonUnicodePath(String),
    /// The configuration file could not be read.
    ReadFile { path: String, err: String },
    /// The configuration file is not valid TOML.
    ParseToml { path: String, err: String },
    /// A timer was asked for that is longer than the longest one allowed.
    TimerDurationTooLong { hours: u64, minutes: u64, seconds: u64 },
}

} // verus!
