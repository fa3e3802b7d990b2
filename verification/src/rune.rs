//! Runes: bundled workload units that are attached to a model.

pub mod archive;
pub mod metadata;
pub mod template;
pub mod v1;
