//! The parts of the abstract syntax tree that the backend reads.
pub mod ast_node;
