//! Symbol kinds.
use vstd::prelude::*;

pub mod data;
pub mod function;

verus! {

/// The numeric types of Microc.
#[derive(Debug, PartialEq, Eq, Copy, Clone, Hash)]
pub enum NumType {
    Int,
    Float,
}

} // verus!
