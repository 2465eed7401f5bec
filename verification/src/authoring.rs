//! The research-to-governed-change authoring pipeline: change-set types,
//! error codes, content hashing, the decisions of stage-2 validation and the
//! cleanup policy.

pub mod bundle;
pub mod canonical_hash;
pub mod cleanup;
pub mod diff;
pub mod errors;
pub mod governance;
pub mod publish_flow;
pub mod ports;
pub mod topo;
pub mod types;
pub mod validate_stage1;
pub mod validate_stage2;
