//! Data symbols: variables and string constants.
use vstd::prelude::*;

use crate::symbol_table::symbol::NumType;

verus! {

/// The type of a data symbol.
#[derive(Debug, PartialEq, Eq, Copy, Clone)]
pub enum DataType {
    String,
    Num(NumType),
}

/// A symbol declared in the global scope or in an anonymous scope
/// (an if block, a for loop): a string constant, an int or a float.
#[derive(Debug, PartialEq, Eq, Hash, Clone)]
pub enum NonFunctionScopedSymbol {
    String { name: String, value: String },
    Int { name: String },
    Float { name: String },
}

impl NonFunctionScopedSymbol {
    pub open spec fn spec_name(&self) -> Seq<char> {
        match self {
            NonFunctionScopedSymbol::String { name, .. } => name@,
            NonFunctionScopedSymbol::Int { name } => name@,
            NonFunctionScopedSymbol::Float { name } => name@,
        }
    }

    pub open spec fn spec_data_type(&self) -> DataType {
        match self {
            NonFunctionScopedSymbol::String { .. } => DataType::String,
            NonFunctionScopedSymbol::Int { .. } => DataType::Num(NumType::Int),
            NonFunctionScopedSymbol::Float { .. } => DataType::Num(NumType::Float),
        }
    }

    pub fn name(&self) -> (r: &str)
        ensures
            r@ == self.spec_name(),
    {
        match self {
            NonFunctionScopedSymbol::String { name, .. } => name.as_str(),
            NonFunctionScopedSymbol::Int { name } => name.as_str(),
            NonFunctionScopedSymbol::Float { name } => name.as_str(),
        }
    }

    pub fn data_type(&self) -> (r: DataType)
        ensures
            r == self.spec_data_type(),
    {
        match self {
            NonFunctionScopedSymbol::String { .. } => DataType::String,
            NonFunctionScopedSymbol::Int { .. } => DataType::Num(NumType::Int),
            NonFunctionScopedSymbol::Float { .. } => DataType::Num(NumType::Float),
        }
    }
}

/// Whether a function-scoped symbol is a parameter or a local.
#[derive(Debug, PartialEq, Eq, Hash, Clone, Copy)]
pub enum FunctionScopedSymbolType {
    Parameter,
    Local,
}

/// A parameter or a local of a function, known by its position.
#[derive(Debug, PartialEq, Eq, Hash, Clone, Copy)]
pub enum FunctionScopedSymbol {
    Int { symbol_type: FunctionScopedSymbolType, index: u32 },
    Float { symbol_type: FunctionScopedSymbolType, index: u32 },
}

/// A data symbol of any scope.
#[derive(Debug, PartialEq, Eq, Hash, Clone)]
pub enum Symbol {
    NonFunctionScopedSymbol(NonFunctionScopedSymbol),
    FunctionScopedSymbol(FunctionScopedSymbol),
}

} // verus!
