//! Target code generation.
pub mod tiny;
