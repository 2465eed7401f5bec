//! Retention policy of the authoring pipeline: terminal change sets are
//! archived after a retention period, orphan drafts after a shorter one.

use vstd::prelude::*;

verus! {

/// Retention periods, in days.
#[derive(Debug, Clone, Copy, PartialEq, Eq)]
pub struct CleanupPolicy {
    /// Days after which rejected or failed change sets are archived.
    pub terminal_retention_days: u32,
    /// Days after which orphan draft or validated change sets are archived.
    pub orphan_retention_days: u32,
}

impl Default for CleanupPolicy {
    fn default() -> (r: Self)
        ensures
            r.terminal_retention_days == 90,
            r.orphan_retention_days == 30,
    {
        CleanupPolicy { terminal_retention_days: 90, orphan_retention_days: 30 }
    }
}

} // verus!
