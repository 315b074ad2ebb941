//! Verified core of an incremental view maintenance engine.

pub mod adapters;
pub mod algebra;
pub mod order;
pub mod pipeline_manager;
pub mod sqllib;
pub mod text;
pub mod trace;
