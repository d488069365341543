//! Error taxonomy for the scheduling engine and its callers.

use vstd::prelude::*;

verus! {

/// Ways a breakpoint configuration can be rejected by validation.
#[derive(Debug, Clone, Copy, PartialEq, Eq, Structural)]
pub enum ConfigFileErrors {
    /// The breakpoint sequence has no elements.
    Empty,
    /// The sequence violates the one-wraparound ordering rule.
    OutOfOrder,
    /// Two independent end-of-day sentinels were found in one day.
    FileTimeMismatch,
}

/// Ways a selection query can fail.
#[derive(Debug, Clone, Copy, PartialEq, Eq, Structural)]
pub enum SelectionErrors {
    /// Selection was attempted with no images or breakpoints.
    Empty,
}

/// Top-level error type surfaced to the process boundary.
#[derive(Debug, PartialEq, Eq)]
pub enum Errors {
    /// The image count does not evenly divide the day (or is zero).
    CountCompatError(usize),
    /// The breakpoint configuration is malformed.
    ConfigFileError(ConfigFileErrors),
    /// A selection query failed.
    SelectionError(SelectionErrors),
    /// The image directory does not exist.
    DirNonExistantError(String),
    /// An image path could not be rendered as text.
    FilePathError,
    /// Spawning the named external program failed.
    ProgramRunError(String),
    /// The image directory holds no images.
    NoFilesFoundError(String),
}

} // verus!
