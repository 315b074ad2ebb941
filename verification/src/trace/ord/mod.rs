//! Batches of updates kept in order.

pub mod indexed_zset_batch;
pub mod zset_batch;
