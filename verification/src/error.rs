//! Error taxonomy: every failure aborts the whole run and carries the
//! offending input so the abort can be diagnosed without re-running.

use vstd::prelude::*;

verus! {

/// The kinds of fatal failure, each with the offending input attached.
pub enum StoreError {
    /// A malformed store URL or a malformed numeric argument.
    Configuration(String),
    /// A scheme that is recognized but intentionally not implemented.
    UnsupportedBackend(String),
    /// A scheme that is not recognized at all.
    UnsupportedScheme(String),
    /// The object key does not exist at the resolved path.
    NotFound(String),
    /// Any other transport or storage fault.
    Io(String),
}

} // verus!
