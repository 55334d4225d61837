//! A build-and-link orchestrator: it resolves whitespace-delimited source
//! lists into compilation units, plans one static archive per named source
//! set, assembles per-executable link directives (classifying library
//! references as static archives or dynamic libraries by filename
//! convention), and marshals process arguments into null-terminated,
//! byte-preserving buffers for a foreign entry point.

pub mod bridge;
pub mod descriptor;
pub mod link;
pub mod plan;
pub mod resolver;
pub mod text;
