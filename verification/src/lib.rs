//! Verified core of a workspace release pipeline: a semantic-version model,
//! a placeholder-template renderer, a regex-driven file replacement engine
//! with occurrence bounds, read-only verification gates, a commit
//! consolidation policy, and the pipeline coordinator that sequences them.
//!
//! All mutating collaborators (version control, registry, file system,
//! hook processes) are driven from outside: the coordinator consumes a
//! snapshot of their answers and produces an ordered action script.

pub mod error;
pub mod gates;
pub mod pipeline;
pub mod plan;
pub mod replace;
pub mod template;
pub mod version;
