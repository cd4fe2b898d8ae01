//! The workflow runtime: capabilities, graph compilation and node logic.

pub mod capability;
pub mod error;
pub mod milestone;
pub mod extension;
pub mod graph;
pub mod schema;
pub mod nodes;
pub mod execution;
pub mod context;
pub mod compiler;
pub mod retry;
pub mod runtime;
pub mod llm;
pub mod transform;
pub mod fallback;
pub mod condition;
pub mod snapshot;
pub mod runner;
pub mod dispatch;
pub mod egress;
