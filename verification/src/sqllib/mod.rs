//! Values that generated SQL programs compute with.

pub mod decimal;
