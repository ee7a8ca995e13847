//! The symbols that the backend reads: data symbols with a name and a
//! type, and function symbols.
pub mod symbol;
