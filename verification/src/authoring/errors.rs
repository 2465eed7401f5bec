//! Structured error codes of the authoring pipeline, `{STAGE}:{CATEGORY}:{CODE}`:
//! `V:*` for stage-1 validation, `D:*` for the stage-2 dry run and
//! `PUBLISH:*` for publish time.

use vstd::prelude::*;

verus! {

/// Artifact content hash does not match declared hash.
pub const V_HASH_MISMATCH: &'static str = "V:HASH:MISMATCH";
/// An artifact declared in the manifest is missing from the bundle.
pub const V_HASH_MISSING_ARTIFACT: &'static str = "V:HASH:MISSING_ARTIFACT";
/// SQL migration cannot be parsed.
pub const V_PARSE_SQL_SYNTAX: &'static str = "V:PARSE:SQL_SYNTAX";
/// YAML artifact has invalid syntax.
pub const V_PARSE_YAML_SYNTAX: &'static str = "V:PARSE:YAML_SYNTAX";
/// YAML artifact does not conform to expected schema.
pub const V_PARSE_YAML_SCHEMA: &'static str = "V:PARSE:YAML_SCHEMA";
/// JSON artifact has invalid syntax.
pub const V_PARSE_JSON_SYNTAX: &'static str = "V:PARSE:JSON_SYNTAX";
/// JSON artifact does not conform to expected schema.
pub const V_PARSE_JSON_SCHEMA: &'static str = "V:PARSE:JSON_SCHEMA";
/// Referenced entity type not found in registry or bundle.
pub const V_REF_MISSING_ENTITY: &'static str = "V:REF:MISSING_ENTITY";
/// Referenced domain not found.
pub const V_REF_MISSING_DOMAIN: &'static str = "V:REF:MISSING_DOMAIN";
/// Referenced attribute not found.
pub const V_REF_MISSING_ATTRIBUTE: &'static str = "V:REF:MISSING_ATTRIBUTE";
/// Declared dependency ChangeSet not found.
pub const V_REF_MISSING_DEPENDENCY: &'static str = "V:REF:MISSING_DEPENDENCY";
/// Circular dependency detected among ChangeSet dependencies.
pub const V_REF_CIRCULAR_DEPENDENCY: &'static str = "V:REF:CIRCULAR_DEPENDENCY";
/// Attribute data type mismatch between contract and definition.
pub const V_TYPE_ATTRIBUTE_MISMATCH: &'static str = "V:TYPE:ATTRIBUTE_MISMATCH";
/// Verb contract is missing required fields.
pub const V_TYPE_CONTRACT_INCOMPLETE: &'static str = "V:TYPE:CONTRACT_INCOMPLETE";
/// Derivation lineage chain is broken.
pub const V_TYPE_LINEAGE_BROKEN: &'static str = "V:TYPE:LINEAGE_BROKEN";
/// Migration SQL failed to apply in scratch schema.
pub const D_SCHEMA_APPLY_FAILED: &'static str = "D:SCHEMA:APPLY_FAILED";
/// Migration contains non-transactional DDL (e.g. CREATE INDEX CONCURRENTLY).
pub const D_SCHEMA_NON_TRANSACTIONAL_DDL: &'static str = "D:SCHEMA:NON_TRANSACTIONAL_DDL";
/// Migration contains forbidden DDL.
pub const D_SCHEMA_FORBIDDEN_DDL: &'static str = "D:SCHEMA:FORBIDDEN_DDL";
/// No corresponding down migration for a forward migration.
pub const D_SCHEMA_DOWN_MISSING: &'static str = "D:SCHEMA:DOWN_MISSING";
/// Down migration failed during scratch cleanup.
pub const D_SCHEMA_DOWN_FAILED: &'static str = "D:SCHEMA:DOWN_FAILED";
/// Breaking change not declared as such in the manifest.
pub const D_COMPAT_BREAKING_UNDECLARED: &'static str = "D:COMPAT:BREAKING_UNDECLARED";
/// Attribute definition conflicts with existing active snapshot.
pub const D_COMPAT_ATTR_CONFLICT: &'static str = "D:COMPAT:ATTR_CONFLICT";
/// Verb contract conflicts with existing active snapshot.
pub const D_COMPAT_VERB_CONFLICT: &'static str = "D:COMPAT:VERB_CONFLICT";
/// A dependency ChangeSet has not been published yet.
pub const D_COMPAT_DEPENDENCY_UNPUBLISHED: &'static str = "D:COMPAT:DEPENDENCY_UNPUBLISHED";
/// A dependency ChangeSet is in a failed state.
pub const D_COMPAT_DEPENDENCY_FAILED: &'static str = "D:COMPAT:DEPENDENCY_FAILED";
/// Supersession target is already superseded or not in a terminal state.
pub const D_COMPAT_SUPERSESSION_CONFLICT: &'static str = "D:COMPAT:SUPERSESSION_CONFLICT";
/// Governed ChangeSet requires approval before publish.
pub const D_POLICY_APPROVAL_REQUIRED: &'static str = "D:POLICY:APPROVAL_REQUIRED";
/// Actor does not have sufficient role for this operation.
pub const D_POLICY_ROLE_INSUFFICIENT: &'static str = "D:POLICY:ROLE_INSUFFICIENT";
/// Active snapshot set changed since dry-run was evaluated.
pub const PUBLISH_DRIFT_DETECTED: &'static str = "PUBLISH:DRIFT_DETECTED";
/// Could not acquire advisory lock for single-publisher gate.
pub const PUBLISH_LOCK_CONTENTION: &'static str = "PUBLISH:LOCK_CONTENTION";
/// ChangeSet is not in the correct status for publish.
pub const PUBLISH_STATUS_INVALID: &'static str = "PUBLISH:STATUS_INVALID";
/// Batch publish dependency graph contains a cycle.
pub const PUBLISH_BATCH_CYCLE_DETECTED: &'static str = "PUBLISH:BATCH_CYCLE_DETECTED";

} // verus!
