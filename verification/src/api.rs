//! What the service shows of a model to the outside.

pub mod route;
pub mod v1;
