//! Values exchanged with the scratch-schema runner.

use vstd::prelude::*;

verus! {

/// Result of a scratch schema migration run.
#[derive(Debug, Clone, PartialEq, Eq)]
pub struct ScratchRunResult {
    /// Time in milliseconds to apply forward migrations.
    pub apply_ms: u64,
    /// Errors encountered during apply (empty = success).
    pub apply_errors: Vec<String>,
    /// Errors encountered during down-migration validation (empty = success).
    pub down_errors: Vec<String>,
}

} // verus!
