//! Verified core of the relay gateway: the canonical protocol model, the
//! wire-format adapters, the SSE framing layer and the workflow compiler.

pub mod text;
pub mod sse;
pub mod json;
pub mod canonical;
pub mod adapters;
pub mod catalog;
pub mod error;
pub mod harness;
pub mod mock;
pub mod workflow;
