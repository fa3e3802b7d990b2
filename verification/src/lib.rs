//! The controller of a small cloud-workload orchestrator: a per-model request
//! log, the state derived from it, and the decisions of the driver that runs
//! one request per model at a time.

pub mod api;
pub mod client;
pub mod clouds;
pub mod dict;
pub mod ident;
pub mod rune;
pub mod server;
pub mod text;
pub mod traits;
