//! Operators, identifiers and return types of Microc.
use vstd::prelude::*;

use crate::symbol_table::symbol::data::{DataType, NonFunctionScopedSymbol};

verus! {

/// Tells an addition from a subtraction.
#[derive(Debug, Copy, Clone, PartialEq, Eq)]
pub enum AddOp {
    Add,
    Sub,
}

/// Tells a multiplication from a division.
#[derive(Debug, Copy, Clone, PartialEq, Eq)]
pub enum MulOp {
    Mul,
    Div,
}

/// The comparison of a boolean expression.
#[derive(Debug, Copy, Clone, PartialEq, Eq)]
pub enum CmpOp {
    /// Less than
    Lt,
    /// Greater than
    Gt,
    /// Equal to
    Eq,
    /// Not equal to
    Ne,
    /// Less than or equal to
    Lte,
    /// Greater than or equal to
    Gte,
}

/// An identifier of a declared data symbol.
#[derive(Debug, Clone, PartialEq, Eq)]
pub struct Identifier {
    pub symbol: NonFunctionScopedSymbol,
}

impl Identifier {
    pub fn data_type(&self) -> (r: DataType)
        ensures
            r == self.symbol.spec_data_type(),
    {
        self.symbol.data_type()
    }

    pub fn to_name(&self) -> (r: String)
        ensures
            r@ == self.symbol.spec_name(),
    {
        self.symbol.name().to_string()
    }
}

/// What a function returns.
#[derive(Debug, Clone, Copy, PartialEq, Eq)]
pub enum FunctionReturnType {
    Int,
    Float,
    Void,
}

} // verus!
