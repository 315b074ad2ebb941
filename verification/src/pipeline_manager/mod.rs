//! The pipeline manager: its configuration, and the life cycle of pipelines.

pub mod automaton;
pub mod canonicalize;
pub mod config;
pub mod error;
pub mod ids;
pub mod launch;
pub mod local_runner;
pub mod runner;
pub mod state;
