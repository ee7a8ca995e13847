//! Function symbols.
use vstd::prelude::*;

use crate::symbol_table::symbol::NumType;

verus! {

/// What a function returns.
#[derive(Debug, PartialEq, Eq, Copy, Clone, Hash)]
pub enum ReturnType {
    Num(NumType),
    Void,
}

/// A function: its name, return type, and the types of its parameters
/// and locals.
#[derive(Debug, PartialEq, Eq, Hash, Clone)]
pub struct Symbol {
    name: String,
    return_type: ReturnType,
    params_list: Vec<NumType>,
    locals_list: Vec<NumType>,
}

impl Symbol {
    pub closed spec fn spec_name(&self) -> Seq<char> {
        self.name@
    }

    pub closed spec fn spec_name_string(&self) -> String {
        self.name
    }

    pub closed spec fn spec_locals(&self) -> Seq<NumType> {
        self.locals_list@
    }

    pub fn new(
        name: String,
        return_type: ReturnType,
        param_list: Vec<NumType>,
        locals_list: Vec<NumType>,
    ) -> (r: Symbol)
        ensures
            r.spec_name() == name@,
            r.spec_locals() == locals_list@,
    {
        Symbol { name, return_type, params_list: param_list, locals_list }
    }

    pub fn name(&self) -> (r: &str)
        ensures
            r@ == self.spec_name(),
    {
        self.name.as_str()
    }

    /// The name, as an owned string.
    pub fn name_string(&self) -> (r: String)
        ensures
            r == self.spec_name_string(),
            r@ == self.spec_name(),
    {
        self.name.clone()
    }

    /// The number of locals of the function.
    pub fn locals_count(&self) -> (r: usize)
        ensures
            r == self.spec_locals().len(),
    {
        self.locals_list.len()
    }
}

} // verus!
