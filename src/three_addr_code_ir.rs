//! Three-address code intermediate representation: operands, identifiers
//! and the counters that number temporaries and labels.
use vstd::prelude::*;

use crate::ast::ast_node::Identifier;
use crate::symbol_table::symbol::data::DataType;
use crate::symbol_table::symbol::function;
use crate::symbol_table::symbol::NumType;

pub mod three_address_code;

verus! {

/// Numbering state of one compilation: temporaries are numbered per
/// function (the numbering restarts for each function), labels are
/// numbered once for the whole program.
#[derive(Debug)]
pub struct IrContext {
    pub next_temp: u64,
    pub next_label: u64,
}

impl IrContext {
    /// A fresh context: the first temporary and the first label are both 1.
    pub fn new() -> (r: IrContext)
        ensures
            r.next_temp == 1,
            r.next_label == 1,
    {
        IrContext { next_temp: 1, next_label: 1 }
    }

    /// Starts the numbering of temporaries again for a new function;
    /// labels keep counting.
    pub fn reset_temps(&mut self)
        ensures
            final(self).next_temp == 1,
            final(self).next_label == old(self).next_label,
    {
        self.next_temp = 1;
    }
}

/// A point in the three-address code that control can be transferred to.
#[derive(Debug, Copy, Clone, PartialEq, Eq, Hash)]
pub struct Label(pub u64);

impl Label {
    /// The next label of the program.
    pub fn new(ctx: &mut IrContext) -> (r: Label)
        requires
            old(ctx).next_label < u64::MAX,
        ensures
            r.0 == old(ctx).next_label,
            final(ctx).next_label == old(ctx).next_label + 1,
            final(ctx).next_temp == old(ctx).next_temp,
    {
        let r = Label(ctx.next_label);
        ctx.next_label = ctx.next_label + 1;
        r
    }

    pub fn label(&self) -> (r: u64)
        ensures
            r == self.0,
    {
        self.0
    }
}

/// An int temporary; there is no limit to how many a function creates.
#[derive(Debug, Copy, Clone, PartialEq, Eq, Hash)]
pub struct TempI(pub u64);

impl TempI {
    /// The next temporary of the current function.
    pub fn new(ctx: &mut IrContext) -> (r: TempI)
        requires
            old(ctx).next_temp < u64::MAX,
        ensures
            r.0 == old(ctx).next_temp,
            final(ctx).next_temp == old(ctx).next_temp + 1,
            final(ctx).next_label == old(ctx).next_label,
    {
        let r = TempI(ctx.next_temp);
        ctx.next_temp = ctx.next_temp + 1;
        r
    }
}

/// A float temporary; it shares its numbering with the int temporaries.
#[derive(Debug, Copy, Clone, PartialEq, Eq, Hash)]
pub struct TempF(pub u64);

impl TempF {
    /// The next temporary of the current function.
    pub fn new(ctx: &mut IrContext) -> (r: TempF)
        requires
            old(ctx).next_temp < u64::MAX,
        ensures
            r.0 == old(ctx).next_temp,
            final(ctx).next_temp == old(ctx).next_temp + 1,
            final(ctx).next_label == old(ctx).next_label,
    {
        let r = TempF(ctx.next_temp);
        ctx.next_temp = ctx.next_temp + 1;
        r
    }
}

/// Int identifier: the name of a declared int variable.
#[derive(Debug, PartialEq, Eq, Hash)]
pub struct IdentI(pub String);

/// Float identifier: the name of a declared float variable.
#[derive(Debug, PartialEq, Eq, Hash)]
pub struct IdentF(pub String);

/// String identifier: the name of a declared string constant.
#[derive(Debug, PartialEq, Eq, Hash)]
pub struct IdentS(pub String);

impl IdentI {
    /// The int identifier named like the AST identifier.
    pub fn from_identifier(id: &Identifier) -> (r: IdentI)
        ensures
            r.0@ == id.symbol.spec_name(),
    {
        IdentI(id.to_name())
    }
}

impl IdentF {
    /// The float identifier named like the AST identifier.
    pub fn from_identifier(id: &Identifier) -> (r: IdentF)
        ensures
            r.0@ == id.symbol.spec_name(),
    {
        IdentF(id.to_name())
    }
}

impl IdentS {
    /// The string identifier named like the AST identifier.
    pub fn from_identifier(id: &Identifier) -> (r: IdentS)
        ensures
            r.0@ == id.symbol.spec_name(),
    {
        IdentS(id.to_name())
    }
}

impl Clone for IdentI {
    fn clone(&self) -> (r: Self)
        ensures
            r == *self,
    {
        IdentI(self.0.clone())
    }
}

impl Clone for IdentF {
    fn clone(&self) -> (r: Self)
        ensures
            r == *self,
    {
        IdentF(self.0.clone())
    }
}

impl Clone for IdentS {
    fn clone(&self) -> (r: Self)
        ensures
            r == *self,
    {
        IdentS(self.0.clone())
    }
}

/// An int location that can be assigned: a temporary or a variable.
#[derive(Debug, PartialEq, Eq, Hash)]
pub enum LValueI {
    Temp(TempI),
    Id(IdentI),
}

/// A float location that can be assigned: a temporary or a variable.
#[derive(Debug, PartialEq, Eq, Hash)]
pub enum LValueF {
    Temp(TempF),
    Id(IdentF),
}

/// Any assignable location; the elements of the liveness sets.
#[derive(Debug, PartialEq, Eq, Hash)]
pub enum LValue {
    LValueI(LValueI),
    LValueF(LValueF),
}

impl Clone for LValueI {
    fn clone(&self) -> (r: Self)
        ensures
            r == *self,
    {
        match self {
            LValueI::Temp(t) => LValueI::Temp(*t),
            LValueI::Id(id) => LValueI::Id(id.clone()),
        }
    }
}

impl Clone for LValueF {
    fn clone(&self) -> (r: Self)
        ensures
            r == *self,
    {
        match self {
            LValueF::Temp(t) => LValueF::Temp(*t),
            LValueF::Id(id) => LValueF::Id(id.clone()),
        }
    }
}

impl Clone for LValue {
    fn clone(&self) -> (r: Self)
        ensures
            r == *self,
    {
        match self {
            LValue::LValueI(l) => LValue::LValueI(l.clone()),
            LValue::LValueF(l) => LValue::LValueF(l.clone()),
        }
    }
}

/// What a location denotes: two locations are the same exactly when
/// their views are equal (a variable is known by its name).
pub enum Loc {
    TempI(u64),
    TempF(u64),
    IdentI(Seq<char>),
    IdentF(Seq<char>),
}

impl View for LValueI {
    type V = Loc;

    open spec fn view(&self) -> Loc {
        match self {
            LValueI::Temp(t) => Loc::TempI(t.0),
            LValueI::Id(id) => Loc::IdentI(id.0@),
        }
    }
}

impl View for LValueF {
    type V = Loc;

    open spec fn view(&self) -> Loc {
        match self {
            LValueF::Temp(t) => Loc::TempF(t.0),
            LValueF::Id(id) => Loc::IdentF(id.0@),
        }
    }
}

impl View for LValue {
    type V = Loc;

    open spec fn view(&self) -> Loc {
        match self {
            LValue::LValueI(l) => l@,
            LValue::LValueF(l) => l@,
        }
    }
}

impl LValue {
    /// Whether two locations are the same.
    pub fn same(&self, other: &LValue) -> (r: bool)
        ensures
            r == (self@ == other@),
    {
        match (self, other) {
            (LValue::LValueI(LValueI::Temp(a)), LValue::LValueI(LValueI::Temp(b))) => a.0 == b.0,
            (LValue::LValueF(LValueF::Temp(a)), LValue::LValueF(LValueF::Temp(b))) => a.0 == b.0,
            (LValue::LValueI(LValueI::Id(a)), LValue::LValueI(LValueI::Id(b))) => a.0 == b.0,
            (LValue::LValueF(LValueF::Id(a)), LValue::LValueF(LValueF::Id(b))) => a.0 == b.0,
            _ => false,
        }
    }
}

/// A float literal, held as the bits of its IEEE 754 double.
#[derive(Debug, Copy, Clone, PartialEq, Eq, Hash)]
pub struct FloatLit {
    pub bits: u64,
}

/// An int operand: a location or an int literal.
#[derive(Debug, PartialEq, Eq, Hash)]
pub enum BinaryExprOperandI {
    LValue(LValueI),
    RValue(i32),
}

/// A float operand: a location or a float literal.
#[derive(Debug, PartialEq, Eq, Hash)]
pub enum BinaryExprOperandF {
    LValue(LValueF),
    RValue(FloatLit),
}

impl Clone for BinaryExprOperandI {
    fn clone(&self) -> (r: Self)
        ensures
            r == *self,
    {
        match self {
            BinaryExprOperandI::LValue(l) => BinaryExprOperandI::LValue(l.clone()),
            BinaryExprOperandI::RValue(n) => BinaryExprOperandI::RValue(*n),
        }
    }
}

impl Clone for BinaryExprOperandF {
    fn clone(&self) -> (r: Self)
        ensures
            r == *self,
    {
        match self {
            BinaryExprOperandF::LValue(l) => BinaryExprOperandF::LValue(l.clone()),
            BinaryExprOperandF::RValue(n) => BinaryExprOperandF::RValue(*n),
        }
    }
}

impl BinaryExprOperandI {
    /// Whether the operand is a variable in memory.
    pub fn is_mem_ref(&self) -> (r: bool)
        ensures
            r == (self is LValue && self->LValue_0 is Id),
    {
        match self {
            BinaryExprOperandI::LValue(LValueI::Id(_)) => true,
            _ => false,
        }
    }
}

impl BinaryExprOperandF {
    /// Whether the operand is a variable in memory.
    pub fn is_mem_ref(&self) -> (r: bool)
        ensures
            r == (self is LValue && self->LValue_0 is Id),
    {
        match self {
            BinaryExprOperandF::LValue(LValueF::Id(_)) => true,
            _ => false,
        }
    }
}

/// A literal of either type.
#[derive(Debug, Copy, Clone, PartialEq, Eq, Hash)]
pub enum RValue {
    IntLiteral(i32),
    FloatLiteral(FloatLit),
}

/// An operand of either type.
#[derive(Debug, PartialEq, Eq, Hash)]
pub enum BinaryExprOperand {
    LValueI(LValueI),
    LValueF(LValueF),
    RValue(RValue),
}

impl BinaryExprOperand {
    /// Whether the operand is a variable in memory.
    pub fn is_mem_ref(&self) -> (r: bool)
        ensures
            r == ((self is LValueI && self->LValueI_0 is Id) || (self is LValueF
                && self->LValueF_0 is Id)),
    {
        match self {
            BinaryExprOperand::LValueI(LValueI::Id(_)) => true,
            BinaryExprOperand::LValueF(LValueF::Id(_)) => true,
            _ => false,
        }
    }
}

/// The type of the value that an operation produces.
#[derive(Debug, Copy, Clone, PartialEq, Eq)]
pub enum ResultType {
    Int,
    Float,
}

impl ResultType {
    /// The result type of a numeric data type; a string is the result of
    /// no operation.
    pub fn from_data_type(t: DataType) -> (r: ResultType)
        requires
            t != DataType::String,
        ensures
            t == DataType::Num(NumType::Int) ==> r == ResultType::Int,
            t == DataType::Num(NumType::Float) ==> r == ResultType::Float,
    {
        match t {
            DataType::Num(NumType::Float) => ResultType::Float,
            _ => ResultType::Int,
        }
    }
}

/// A function, as the target of a call or the owner of a frame.
#[derive(Debug, PartialEq, Eq, Hash, Clone)]
pub struct FunctionIdent(pub function::Symbol);

} // verus!
