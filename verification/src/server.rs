//! The service side: the request log of a model and the controller that
//! works it off.

pub mod config;
pub mod controller;
pub mod error;
pub mod laws;
pub mod model;
pub mod state;
pub mod store;
