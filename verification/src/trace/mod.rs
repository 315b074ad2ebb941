//! Collections of weighted updates.

pub mod description;
pub mod layers;
pub mod ord;
