//! The kinds of failure that the engine reports.

use vstd::prelude::*;

verus! {

/// Why an operation of the engine failed.
#[derive(Debug, Clone, Copy, PartialEq, Eq, Structural)]
pub enum EngineError {
    /// A required credential is absent.
    NotConfigured,
    /// A file, a game or a remote entity is absent.
    NotFound,
    /// The network failed.
    Transport,
    /// Source data is malformed.
    Parse,
    /// The store failed.
    Storage,
    /// The remote answered, with no data for this player.
    Unavailable,
}

} // verus!
