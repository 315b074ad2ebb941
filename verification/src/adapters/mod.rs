//! The HTTP server of a pipeline.

pub mod bootstrap;
pub mod endpoints;
pub mod error;
pub mod listen;
pub mod state;
