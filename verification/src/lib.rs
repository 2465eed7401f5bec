//! Governance and projection plane of the semantic registry: access control,
//! publish gates, the verb↔data affinity graph, diagram rendering, domain-pack
//! validation and the authoring-pipeline helpers, all as verified code.

pub mod abac;
pub mod acp_projection;
pub mod affinity;
pub mod assoc;
pub mod authoring;
pub mod context_policy;
pub mod context_resolution;
pub mod derivation;
pub mod diagram;
pub mod domain_pack;
pub mod domain_pack_reload;
pub mod enforce;
pub mod gates;
pub mod grounding;
pub mod json;
pub mod mermaid;
pub mod observatory;
pub mod ontology;
pub mod order;
pub mod outside;
pub mod text;
