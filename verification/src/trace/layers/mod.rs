//! The layers that collections are stored in.

pub mod ordered;
pub mod ordered_leaf;
pub mod ordered_values;
pub mod rows;
pub mod weighted;
