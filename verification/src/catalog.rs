//! The model catalog's typed records.
//!
//! These mirror the JSON shape of the vendored models.dev catalog; loading
//! the catalog file itself is left to the application.

use vstd::prelude::*;

verus! {

/// Input and output modalities of a model.
#[derive(Debug, Clone)]
pub struct Modalities {
    pub input: Vec<String>,
    pub output: Vec<String>,
}

/// Token limits of a model.
#[derive(Debug, Clone, Copy, PartialEq, Eq, Structural)]
pub struct Limit {
    pub context: u64,
    pub output: Option<u64>,
    pub input: Option<u64>,
}

/// A link about a model.
#[derive(Debug, Clone)]
pub struct Link {
    pub label: String,
    pub url: String,
    /// Serialized as `type`.
    pub link_type: Option<String>,
}

/// Metadata about the vendored catalog snapshot.
#[derive(Debug, Clone)]
pub struct CatalogSnapshotMeta {
    pub version: u64,
    pub last_updated: String,
    pub source: String,
}

impl Default for CatalogSnapshotMeta {
    /// Version 1 of an `unknown` date, from the `vendored` source.
    fn default() -> (m: Self)
        ensures
            m.version == 1,
            m.last_updated@ == "unknown"@,
            m.source@ == "vendored"@,
    {
        CatalogSnapshotMeta {
            version: 1,
            last_updated: String::from_str("unknown"),
            source: String::from_str("vendored"),
        }
    }
}

} // verus!
