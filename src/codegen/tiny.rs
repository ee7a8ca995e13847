//! Tiny assembly: the target instruction set, and the register-allocating
//! generator that lowers three-address code into it.
use vstd::prelude::*;

use std::collections::HashMap;

use crate::symbol_table::symbol::data::NonFunctionScopedSymbol;
use crate::three_addr_code_ir::three_address_code::ThreeAddressCode;
use crate::three_addr_code_ir::{
    BinaryExprOperandF, BinaryExprOperandI, FloatLit, IdentI, LValueF, LValueI, TempF, TempI,
};

verus! {

broadcast use vstd::std_specs::hash::group_hash_axioms;

/// The size of the register file: a function may use this many registers.
pub const MAX_REGISTERS: u64 = 200;

/// A Tiny label, named `label<n>`.
#[derive(Debug, Copy, Clone, PartialEq, Eq, Hash)]
pub struct Label(pub u64);

impl Label {
    /// The Tiny label of a three-address code label.
    pub fn from_ir(label: crate::three_addr_code_ir::Label) -> (r: Label)
        ensures
            r.0 == label.0,
    {
        Label(label.label())
    }
}

/// A Tiny register, named `r<n>`.
#[derive(Debug, Copy, Clone, PartialEq, Eq, Hash)]
pub struct Register(pub u64);

/// A memory identifier or a register.
#[derive(Debug, Clone, PartialEq, Eq, Hash)]
pub enum Opmr {
    Reg(Register),
    Id(String),
}

/// A memory identifier, a register or an int literal.
#[derive(Debug, Clone, PartialEq, Eq, Hash)]
pub enum OpmrIL {
    Literal(i32),
    Location(Opmr),
}

/// A memory identifier, a register or a float literal.
#[derive(Debug, Clone, PartialEq, Eq, Hash)]
pub enum OpmrFL {
    Literal(FloatLit),
    Location(Opmr),
}

/// A memory identifier, a register or a literal of either type.
#[derive(Debug, Clone, PartialEq, Eq, Hash)]
pub enum OpmrL {
    Int(OpmrIL),
    Float(OpmrFL),
}

/// A string constant: its name and its value.
#[derive(Debug, Clone, PartialEq, Eq, Hash)]
pub struct Sid {
    pub id: String,
    pub value: String,
}

/// One Tiny instruction.
#[derive(Debug, Clone, PartialEq, Eq, Hash)]
pub enum TinyCode {
    Var(String),
    Str(Sid),
    Label(Label),
    FunctionLabel(String),
    Move(OpmrL, Opmr),
    AddI(OpmrIL, Register),
    SubI(OpmrIL, Register),
    MulI(OpmrIL, Register),
    DivI(OpmrIL, Register),
    AddF(OpmrFL, Register),
    SubF(OpmrFL, Register),
    MulF(OpmrFL, Register),
    DivF(OpmrFL, Register),
    IncI(Register),
    DecI(Register),
    CmpI(OpmrIL, Register),
    CmpF(OpmrFL, Register),
    Push(Option<OpmrL>),
    Pop(Option<Opmr>),
    Jsr(String),
    Ret,
    Link(Option<u32>),
    Unlink,
    Jmp(Label),
    Jgt(Label),
    Jlt(Label),
    Jge(Label),
    Jle(Label),
    Jeq(Label),
    Jne(Label),
    ReadI(Opmr),
    ReadF(Opmr),
    WriteI(Opmr),
    WriteF(Opmr),
    WriteS(String),
    Halt,
}

/// A sequence of Tiny instructions.
#[derive(Debug, Clone, PartialEq, Eq)]
pub struct TinyCodeSequence {
    pub sequence: Vec<TinyCode>,
}

/// Why code generation stopped.
#[derive(Debug, Clone, Copy, PartialEq, Eq)]
pub enum CodegenError {
    /// The function needs more registers than the register file holds.
    OutOfRegisters,
    /// This temporary is read before any instruction wrote it.
    UndefinedTemp(u64),
}

/// The arithmetic operations.
#[derive(Debug, Clone, Copy, PartialEq, Eq)]
pub enum ArithOp {
    Add,
    Sub,
    Mul,
    Div,
}

/// The comparisons of a conditional jump.
#[derive(Debug, Clone, Copy, PartialEq, Eq)]
pub enum CmpOp {
    Gt,
    Lt,
    Gte,
    Lte,
    Ne,
    Eq,
}

/// What the generator knows between instructions of a function: how
/// many registers it has handed out, and which register holds each int
/// and each float temporary.
pub struct GenState {
    pub next: nat,
    pub ints: Map<u64, Register>,
    pub floats: Map<u64, Register>,
}

/// The state at the start of a function.
pub open spec fn fresh_state() -> GenState {
    GenState { next: 0, ints: Map::empty(), floats: Map::empty() }
}

pub open spec fn int_op_code(op: ArithOp, o: OpmrIL, r: Register) -> TinyCode {
    match op {
        ArithOp::Add => TinyCode::AddI(o, r),
        ArithOp::Sub => TinyCode::SubI(o, r),
        ArithOp::Mul => TinyCode::MulI(o, r),
        ArithOp::Div => TinyCode::DivI(o, r),
    }
}

pub open spec fn float_op_code(op: ArithOp, o: OpmrFL, r: Register) -> TinyCode {
    match op {
        ArithOp::Add => TinyCode::AddF(o, r),
        ArithOp::Sub => TinyCode::SubF(o, r),
        ArithOp::Mul => TinyCode::MulF(o, r),
        ArithOp::Div => TinyCode::DivF(o, r),
    }
}

/// The conditional jump that matches a comparison.
pub open spec fn jump_code(op: CmpOp, l: Label) -> TinyCode {
    match op {
        CmpOp::Gt => TinyCode::Jgt(l),
        CmpOp::Lt => TinyCode::Jlt(l),
        CmpOp::Gte => TinyCode::Jge(l),
        CmpOp::Lte => TinyCode::Jle(l),
        CmpOp::Ne => TinyCode::Jne(l),
        CmpOp::Eq => TinyCode::Jeq(l),
    }
}

/// A register not handed out before, if the register file has one left.
pub open spec fn fresh_reg(st: GenState) -> Result<(Register, GenState), CodegenError> {
    if st.next < MAX_REGISTERS {
        Ok((Register(st.next as u64), GenState { next: st.next + 1, ..st }))
    } else {
        Err(CodegenError::OutOfRegisters)
    }
}

/// The register that a temporary is written to: the one that holds it
/// already, else a fresh one.
pub open spec fn dest_reg(m: Map<u64, Register>, t: u64, st: GenState) -> Result<
    (Register, GenState),
    CodegenError,
> {
    if m.contains_key(t) {
        Ok((m[t], st))
    } else {
        fresh_reg(st)
    }
}

/// An int operand as a Tiny operand: a temporary is read from its register.
pub open spec fn operand_il(o: BinaryExprOperandI, ints: Map<u64, Register>) -> Result<
    OpmrIL,
    CodegenError,
> {
    match o {
        BinaryExprOperandI::LValue(LValueI::Temp(t)) => if ints.contains_key(t.0) {
            Ok(OpmrIL::Location(Opmr::Reg(ints[t.0])))
        } else {
            Err(CodegenError::UndefinedTemp(t.0))
        },
        BinaryExprOperandI::LValue(LValueI::Id(x)) => Ok(OpmrIL::Location(Opmr::Id(x.0))),
        BinaryExprOperandI::RValue(n) => Ok(OpmrIL::Literal(n)),
    }
}

/// A float operand as a Tiny operand: a temporary is read from its register.
pub open spec fn operand_fl(o: BinaryExprOperandF, floats: Map<u64, Register>) -> Result<
    OpmrFL,
    CodegenError,
> {
    match o {
        BinaryExprOperandF::LValue(LValueF::Temp(t)) => if floats.contains_key(t.0) {
            Ok(OpmrFL::Location(Opmr::Reg(floats[t.0])))
        } else {
            Err(CodegenError::UndefinedTemp(t.0))
        },
        BinaryExprOperandF::LValue(LValueF::Id(x)) => Ok(OpmrFL::Location(Opmr::Id(x.0))),
        BinaryExprOperandF::RValue(n) => Ok(OpmrFL::Literal(n)),
    }
}

/// An int operand in a register: a temporary's own register, with no
/// move; anything else is moved into a fresh register.
pub open spec fn operand_reg_i(o: BinaryExprOperandI, st: GenState) -> Result<
    (Register, Seq<TinyCode>, GenState),
    CodegenError,
> {
    match o {
        BinaryExprOperandI::LValue(LValueI::Temp(t)) => if st.ints.contains_key(t.0) {
            Ok((st.ints[t.0], Seq::empty(), st))
        } else {
            Err(CodegenError::UndefinedTemp(t.0))
        },
        _ => match fresh_reg(st) {
            Ok((r, st1)) => match operand_il(o, st.ints) {
                Ok(src) => Ok((r, seq![TinyCode::Move(OpmrL::Int(src), Opmr::Reg(r))], st1)),
                Err(e) => Err(e),
            },
            Err(e) => Err(e),
        },
    }
}

/// A float operand in a register: a temporary's own register, with no
/// move; anything else is moved into a fresh register.
pub open spec fn operand_reg_f(o: BinaryExprOperandF, st: GenState) -> Result<
    (Register, Seq<TinyCode>, GenState),
    CodegenError,
> {
    match o {
        BinaryExprOperandF::LValue(LValueF::Temp(t)) => if st.floats.contains_key(t.0) {
            Ok((st.floats[t.0], Seq::empty(), st))
        } else {
            Err(CodegenError::UndefinedTemp(t.0))
        },
        _ => match fresh_reg(st) {
            Ok((r, st1)) => match operand_fl(o, st.floats) {
                Ok(src) => Ok((r, seq![TinyCode::Move(OpmrL::Float(src), Opmr::Reg(r))], st1)),
                Err(e) => Err(e),
            },
            Err(e) => Err(e),
        },
    }
}

/// `t := lhs op rhs`: the left operand goes into a register, the right one
/// is used as it is, and the result stays in the left operand's register,
/// which from then on holds `t`.
pub open spec fn arith_i_spec(
    op: ArithOp,
    lhs: BinaryExprOperandI,
    rhs: BinaryExprOperandI,
    t: TempI,
    st: GenState,
) -> Result<(Seq<TinyCode>, GenState), CodegenError> {
    match operand_reg_i(lhs, st) {
        Ok((r, moves, st1)) => match operand_il(rhs, st1.ints) {
            Ok(o) => Ok((moves.push(int_op_code(op, o, r)), GenState { ints: st1.ints.insert(t.0, r), ..st1 })),
            Err(e) => Err(e),
        },
        Err(e) => Err(e),
    }
}

/// The float form of `arith_i_spec`.
pub open spec fn arith_f_spec(
    op: ArithOp,
    lhs: BinaryExprOperandF,
    rhs: BinaryExprOperandF,
    t: TempF,
    st: GenState,
) -> Result<(Seq<TinyCode>, GenState), CodegenError> {
    match operand_reg_f(lhs, st) {
        Ok((r, moves, st1)) => match operand_fl(rhs, st1.floats) {
            Ok(o) => Ok((moves.push(float_op_code(op, o, r)), GenState { floats: st1.floats.insert(t.0, r), ..st1 })),
            Err(e) => Err(e),
        },
        Err(e) => Err(e),
    }
}

/// `if lhs op rhs goto label`: compare the left operand with the right one
/// in a register, then jump on the outcome.
pub open spec fn cmp_i_spec(
    op: CmpOp,
    lhs: BinaryExprOperandI,
    rhs: BinaryExprOperandI,
    label: crate::three_addr_code_ir::Label,
    st: GenState,
) -> Result<(Seq<TinyCode>, GenState), CodegenError> {
    match operand_il(lhs, st.ints) {
        Ok(o1) => match operand_reg_i(rhs, st) {
            Ok((r, moves, st1)) => Ok((moves + seq![TinyCode::CmpI(o1, r), jump_code(op, Label(label.0))], st1)),
            Err(e) => Err(e),
        },
        Err(e) => Err(e),
    }
}

/// The float form of `cmp_i_spec`.
pub open spec fn cmp_f_spec(
    op: CmpOp,
    lhs: BinaryExprOperandF,
    rhs: BinaryExprOperandF,
    label: crate::three_addr_code_ir::Label,
    st: GenState,
) -> Result<(Seq<TinyCode>, GenState), CodegenError> {
    match operand_fl(lhs, st.floats) {
        Ok(o1) => match operand_reg_f(rhs, st) {
            Ok((r, moves, st1)) => Ok((moves + seq![TinyCode::CmpF(o1, r), jump_code(op, Label(label.0))], st1)),
            Err(e) => Err(e),
        },
        Err(e) => Err(e),
    }
}

/// `lhs := rhs`. A temporary is written in its register (a fresh one the
/// first time). A move has at most one memory operand, so a variable
/// stored into a variable goes through a fresh register.
pub open spec fn store_i_spec(lhs: LValueI, rhs: BinaryExprOperandI, st: GenState) -> Result<
    (Seq<TinyCode>, GenState),
    CodegenError,
> {
    match lhs {
        LValueI::Temp(t) => match dest_reg(st.ints, t.0, st) {
            Ok((r, st1)) => {
                let st2 = GenState { ints: st1.ints.insert(t.0, r), ..st1 };
                match operand_il(rhs, st2.ints) {
                    Ok(o) => Ok((seq![TinyCode::Move(OpmrL::Int(o), Opmr::Reg(r))], st2)),
                    Err(e) => Err(e),
                }
            },
            Err(e) => Err(e),
        },
        LValueI::Id(x) => match rhs {
            BinaryExprOperandI::LValue(LValueI::Id(y)) => match fresh_reg(st) {
                Ok((r, st1)) => Ok((seq![
                    TinyCode::Move(OpmrL::Int(OpmrIL::Location(Opmr::Id(y.0))), Opmr::Reg(r)),
                    TinyCode::Move(OpmrL::Int(OpmrIL::Location(Opmr::Reg(r))), Opmr::Id(x.0)),
                ], st1)),
                Err(e) => Err(e),
            },
            _ => match operand_il(rhs, st.ints) {
                Ok(o) => Ok((seq![TinyCode::Move(OpmrL::Int(o), Opmr::Id(x.0))], st)),
                Err(e) => Err(e),
            },
        },
    }
}

/// The float form of `store_i_spec`.
pub open spec fn store_f_spec(lhs: LValueF, rhs: BinaryExprOperandF, st: GenState) -> Result<
    (Seq<TinyCode>, GenState),
    CodegenError,
> {
    match lhs {
        LValueF::Temp(t) => match dest_reg(st.floats, t.0, st) {
            Ok((r, st1)) => {
                let st2 = GenState { floats: st1.floats.insert(t.0, r), ..st1 };
                match operand_fl(rhs, st2.floats) {
                    Ok(o) => Ok((seq![TinyCode::Move(OpmrL::Float(o), Opmr::Reg(r))], st2)),
                    Err(e) => Err(e),
                }
            },
            Err(e) => Err(e),
        },
        LValueF::Id(x) => match rhs {
            BinaryExprOperandF::LValue(LValueF::Id(y)) => match fresh_reg(st) {
                Ok((r, st1)) => Ok((seq![
                    TinyCode::Move(OpmrL::Float(OpmrFL::Location(Opmr::Id(y.0))), Opmr::Reg(r)),
                    TinyCode::Move(OpmrL::Float(OpmrFL::Location(Opmr::Reg(r))), Opmr::Id(x.0)),
                ], st1)),
                Err(e) => Err(e),
            },
            _ => match operand_fl(rhs, st.floats) {
                Ok(o) => Ok((seq![TinyCode::Move(OpmrL::Float(o), Opmr::Id(x.0))], st)),
                Err(e) => Err(e),
            },
        },
    }
}

/// The Tiny code of one instruction, and the generator's state after it.
#[verifier::opaque]
pub open spec fn lower_spec(tac: ThreeAddressCode, st: GenState) -> Result<
    (Seq<TinyCode>, GenState),
    CodegenError,
> {
    match tac {
        ThreeAddressCode::AddI { lhs, rhs, temp_result } => arith_i_spec(ArithOp::Add, lhs, rhs, temp_result, st),
        ThreeAddressCode::AddF { lhs, rhs, temp_result } => arith_f_spec(ArithOp::Add, lhs, rhs, temp_result, st),
        ThreeAddressCode::SubI { lhs, rhs, temp_result } => arith_i_spec(ArithOp::Sub, lhs, rhs, temp_result, st),
        ThreeAddressCode::SubF { lhs, rhs, temp_result } => arith_f_spec(ArithOp::Sub, lhs, rhs, temp_result, st),
        ThreeAddressCode::MulI { lhs, rhs, temp_result } => arith_i_spec(ArithOp::Mul, lhs, rhs, temp_result, st),
        ThreeAddressCode::MulF { lhs, rhs, temp_result } => arith_f_spec(ArithOp::Mul, lhs, rhs, temp_result, st),
        ThreeAddressCode::DivI { lhs, rhs, temp_result } => arith_i_spec(ArithOp::Div, lhs, rhs, temp_result, st),
        ThreeAddressCode::DivF { lhs, rhs, temp_result } => arith_f_spec(ArithOp::Div, lhs, rhs, temp_result, st),
        ThreeAddressCode::GtI { lhs, rhs, label } => cmp_i_spec(CmpOp::Gt, lhs, rhs, label, st),
        ThreeAddressCode::GtF { lhs, rhs, label } => cmp_f_spec(CmpOp::Gt, lhs, rhs, label, st),
        ThreeAddressCode::LtI { lhs, rhs, label } => cmp_i_spec(CmpOp::Lt, lhs, rhs, label, st),
        ThreeAddressCode::LtF { lhs, rhs, label } => cmp_f_spec(CmpOp::Lt, lhs, rhs, label, st),
        ThreeAddressCode::GteI { lhs, rhs, label } => cmp_i_spec(CmpOp::Gte, lhs, rhs, label, st),
        ThreeAddressCode::GteF { lhs, rhs, label } => cmp_f_spec(CmpOp::Gte, lhs, rhs, label, st),
        ThreeAddressCode::LteI { lhs, rhs, label } => cmp_i_spec(CmpOp::Lte, lhs, rhs, label, st),
        ThreeAddressCode::LteF { lhs, rhs, label } => cmp_f_spec(CmpOp::Lte, lhs, rhs, label, st),
        ThreeAddressCode::NeI { lhs, rhs, label } => cmp_i_spec(CmpOp::Ne, lhs, rhs, label, st),
        ThreeAddressCode::NeF { lhs, rhs, label } => cmp_f_spec(CmpOp::Ne, lhs, rhs, label, st),
        ThreeAddressCode::EqI { lhs, rhs, label } => cmp_i_spec(CmpOp::Eq, lhs, rhs, label, st),
        ThreeAddressCode::EqF { lhs, rhs, label } => cmp_f_spec(CmpOp::Eq, lhs, rhs, label, st),
        ThreeAddressCode::StoreI { lhs, rhs } => store_i_spec(lhs, rhs, st),
        ThreeAddressCode::StoreF { lhs, rhs } => store_f_spec(lhs, rhs, st),
        ThreeAddressCode::ReadI { identifier } => Ok((seq![TinyCode::ReadI(Opmr::Id(identifier.0))], st)),
        ThreeAddressCode::ReadF { identifier } => Ok((seq![TinyCode::ReadF(Opmr::Id(identifier.0))], st)),
        ThreeAddressCode::WriteI { identifier } => Ok((seq![TinyCode::WriteI(Opmr::Id(identifier.0))], st)),
        ThreeAddressCode::WriteF { identifier } => Ok((seq![TinyCode::WriteF(Opmr::Id(identifier.0))], st)),
        ThreeAddressCode::WriteS { identifier } => Ok((seq![TinyCode::WriteS(identifier.0)], st)),
        ThreeAddressCode::Label(l) => Ok((seq![TinyCode::Label(Label(l.0))], st)),
        ThreeAddressCode::Jump(l) => Ok((seq![TinyCode::Jmp(Label(l.0))], st)),
        ThreeAddressCode::FunctionLabel(f) => Ok((seq![TinyCode::FunctionLabel(f.0.spec_name_string())], st)),
        ThreeAddressCode::PushI(o) => match operand_il(o, st.ints) {
            Ok(v) => Ok((seq![TinyCode::Push(Some(OpmrL::Int(v)))], st)),
            Err(e) => Err(e),
        },
        ThreeAddressCode::PushF(o) => match operand_fl(o, st.floats) {
            Ok(v) => Ok((seq![TinyCode::Push(Some(OpmrL::Float(v)))], st)),
            Err(e) => Err(e),
        },
        ThreeAddressCode::PopI(l) => match l {
            LValueI::Temp(t) => match dest_reg(st.ints, t.0, st) {
                Ok((r, st1)) => Ok((seq![TinyCode::Pop(Some(Opmr::Reg(r)))], GenState { ints: st1.ints.insert(t.0, r), ..st1 })),
                Err(e) => Err(e),
            },
            LValueI::Id(x) => Ok((seq![TinyCode::Pop(Some(Opmr::Id(x.0)))], st)),
        },
        ThreeAddressCode::PopF(l) => match l {
            LValueF::Temp(t) => match dest_reg(st.floats, t.0, st) {
                Ok((r, st1)) => Ok((seq![TinyCode::Pop(Some(Opmr::Reg(r)))], GenState { floats: st1.floats.insert(t.0, r), ..st1 })),
                Err(e) => Err(e),
            },
            LValueF::Id(x) => Ok((seq![TinyCode::Pop(Some(Opmr::Id(x.0)))], st)),
        },
        ThreeAddressCode::Jsr(f) => Ok((seq![TinyCode::Jsr(f.0.spec_name_string())], st)),
        ThreeAddressCode::Ret => Ok((seq![TinyCode::Ret], st)),
        ThreeAddressCode::Link(f) => Ok((seq![TinyCode::Link(
            if f.0.spec_locals().len() <= u32::MAX {
                Some(f.0.spec_locals().len() as u32)
            } else {
                None
            },
        )], st)),
        ThreeAddressCode::Unlink => Ok((seq![TinyCode::Unlink], st)),
    }
}

/// The Tiny code of a run of instructions, one after the other.
pub open spec fn lower_all(code: Seq<ThreeAddressCode>, st: GenState) -> Result<
    (Seq<TinyCode>, GenState),
    CodegenError,
>
    decreases code.len(),
{
    if code.len() == 0 {
        Ok((Seq::empty(), st))
    } else {
        match lower_spec(code[0], st) {
            Ok((c, st1)) => match lower_all(code.drop_first(), st1) {
                Ok((rest, st2)) => Ok((c + rest, st2)),
                Err(e) => Err(e),
            },
            Err(e) => Err(e),
        }
    }
}

/// The register state of code generation for one function.
#[derive(Debug)]
pub struct CodegenContext {
    next_register: u64,
    int_registers: HashMap<u64, Register>,
    float_registers: HashMap<u64, Register>,
}

impl Register {
    /// A register not handed out before in this function.
    pub fn new(ctx: &mut CodegenContext) -> (r: Register)
        requires
            old(ctx).state().next < MAX_REGISTERS,
        ensures
            fresh_reg(old(ctx).state()) == Ok::<(Register, GenState), CodegenError>((r, final(ctx).state())),
    {
        let r = Register(ctx.next_register);
        ctx.next_register = ctx.next_register + 1;
        r
    }
}

/// The outcome of a step has the same success and the same error as
/// the spec function's result.
pub open spec fn same_outcome<T>(r: Result<(), CodegenError>, s: Result<T, CodegenError>) -> bool {
    match r {
        Ok(_) => s is Ok,
        Err(e) => s is Err && s->Err_0 == e,
    }
}

impl CodegenContext {
    pub closed spec fn state(&self) -> GenState {
        GenState {
            next: self.next_register as nat,
            ints: self.int_registers@,
            floats: self.float_registers@,
        }
    }

    pub fn new() -> (r: CodegenContext)
        ensures
            r.state() == fresh_state(),
    {
        let r = CodegenContext {
            next_register: 0,
            int_registers: HashMap::new(),
            float_registers: HashMap::new(),
        };
        assert(r.state().ints =~= Map::empty());
        assert(r.state().floats =~= Map::empty());
        r
    }

    /// Forgets the registers of the previous function.
    pub fn reset(&mut self)
        ensures
            final(self).state() == fresh_state(),
    {
        self.next_register = 0;
        self.int_registers.clear();
        self.float_registers.clear();
        assert(self.state().ints =~= Map::empty());
        assert(self.state().floats =~= Map::empty());
    }

    fn check_fresh(&self) -> (r: Result<(), CodegenError>)
        ensures
            same_outcome(r, fresh_reg(self.state())),
    {
        if self.next_register < MAX_REGISTERS {
            Ok(())
        } else {
            Err(CodegenError::OutOfRegisters)
        }
    }

    fn check_temp_i(&self, t: u64) -> (r: bool)
        ensures
            r == self.state().ints.contains_key(t),
    {
        self.int_registers.contains_key(&t)
    }

    fn check_temp_f(&self, t: u64) -> (r: bool)
        ensures
            r == self.state().floats.contains_key(t),
    {
        self.float_registers.contains_key(&t)
    }

    fn check_operand_il(&self, o: &BinaryExprOperandI) -> (r: Result<(), CodegenError>)
        ensures
            same_outcome(r, operand_il(*o, self.state().ints)),
    {
        match o {
            BinaryExprOperandI::LValue(LValueI::Temp(t)) => if self.check_temp_i(t.0) {
                Ok(())
            } else {
                Err(CodegenError::UndefinedTemp(t.0))
            },
            _ => Ok(()),
        }
    }

    fn check_operand_fl(&self, o: &BinaryExprOperandF) -> (r: Result<(), CodegenError>)
        ensures
            same_outcome(r, operand_fl(*o, self.state().floats)),
    {
        match o {
            BinaryExprOperandF::LValue(LValueF::Temp(t)) => if self.check_temp_f(t.0) {
                Ok(())
            } else {
                Err(CodegenError::UndefinedTemp(t.0))
            },
            _ => Ok(()),
        }
    }

    fn check_operand_reg_i(&self, o: &BinaryExprOperandI) -> (r: Result<(), CodegenError>)
        ensures
            same_outcome(r, operand_reg_i(*o, self.state())),
            r is Ok ==> operand_reg_i(*o, self.state())->Ok_0.2.ints == self.state().ints,
    {
        match o {
            BinaryExprOperandI::LValue(LValueI::Temp(_)) => self.check_operand_il(o),
            _ => self.check_fresh(),
        }
    }

    fn check_operand_reg_f(&self, o: &BinaryExprOperandF) -> (r: Result<(), CodegenError>)
        ensures
            same_outcome(r, operand_reg_f(*o, self.state())),
            r is Ok ==> operand_reg_f(*o, self.state())->Ok_0.2.floats == self.state().floats,
    {
        match o {
            BinaryExprOperandF::LValue(LValueF::Temp(_)) => self.check_operand_fl(o),
            _ => self.check_fresh(),
        }
    }

    fn check_arith_i(&self, lhs: &BinaryExprOperandI, rhs: &BinaryExprOperandI) -> (r: Result<(), CodegenError>)
        ensures
            forall|op: ArithOp, t: TempI| same_outcome(r, #[trigger] arith_i_spec(op, *lhs, *rhs, t, self.state())),
    {
        match self.check_operand_reg_i(lhs) {
            Ok(_) => self.check_operand_il(rhs),
            Err(e) => Err(e),
        }
    }

    fn check_arith_f(&self, lhs: &BinaryExprOperandF, rhs: &BinaryExprOperandF) -> (r: Result<(), CodegenError>)
        ensures
            forall|op: ArithOp, t: TempF| same_outcome(r, #[trigger] arith_f_spec(op, *lhs, *rhs, t, self.state())),
    {
        match self.check_operand_reg_f(lhs) {
            Ok(_) => self.check_operand_fl(rhs),
            Err(e) => Err(e),
        }
    }

    fn check_cmp_i(&self, lhs: &BinaryExprOperandI, rhs: &BinaryExprOperandI) -> (r: Result<(), CodegenError>)
        ensures
            forall|op: CmpOp, l: crate::three_addr_code_ir::Label| same_outcome(r, #[trigger] cmp_i_spec(op, *lhs, *rhs, l, self.state())),
    {
        match self.check_operand_il(lhs) {
            Ok(_) => self.check_operand_reg_i(rhs),
            Err(e) => Err(e),
        }
    }

    fn check_cmp_f(&self, lhs: &BinaryExprOperandF, rhs: &BinaryExprOperandF) -> (r: Result<(), CodegenError>)
        ensures
            forall|op: CmpOp, l: crate::three_addr_code_ir::Label| same_outcome(r, #[trigger] cmp_f_spec(op, *lhs, *rhs, l, self.state())),
    {
        match self.check_operand_fl(lhs) {
            Ok(_) => self.check_operand_reg_f(rhs),
            Err(e) => Err(e),
        }
    }

    fn check_dest_i(&self, t: u64) -> (r: Result<(), CodegenError>)
        ensures
            same_outcome(r, dest_reg(self.state().ints, t, self.state())),
    {
        if self.check_temp_i(t) {
            Ok(())
        } else {
            self.check_fresh()
        }
    }

    fn check_dest_f(&self, t: u64) -> (r: Result<(), CodegenError>)
        ensures
            same_outcome(r, dest_reg(self.state().floats, t, self.state())),
    {
        if self.check_temp_f(t) {
            Ok(())
        } else {
            self.check_fresh()
        }
    }

    fn check_store_i(&self, lhs: &LValueI, rhs: &BinaryExprOperandI) -> (r: Result<(), CodegenError>)
        ensures
            same_outcome(r, store_i_spec(*lhs, *rhs, self.state())),
    {
        match lhs {
            LValueI::Temp(t) => match self.check_dest_i(t.0) {
                Ok(_) => match rhs {
                    BinaryExprOperandI::LValue(LValueI::Temp(t2)) => if t2.0 == t.0 || self.check_temp_i(t2.0) {
                        Ok(())
                    } else {
                        Err(CodegenError::UndefinedTemp(t2.0))
                    },
                    _ => Ok(()),
                },
                Err(e) => Err(e),
            },
            LValueI::Id(_) => match rhs {
                BinaryExprOperandI::LValue(LValueI::Id(_)) => self.check_fresh(),
                _ => self.check_operand_il(rhs),
            },
        }
    }

    fn check_store_f(&self, lhs: &LValueF, rhs: &BinaryExprOperandF) -> (r: Result<(), CodegenError>)
        ensures
            same_outcome(r, store_f_spec(*lhs, *rhs, self.state())),
    {
        match lhs {
            LValueF::Temp(t) => match self.check_dest_f(t.0) {
                Ok(_) => match rhs {
                    BinaryExprOperandF::LValue(LValueF::Temp(t2)) => if t2.0 == t.0 || self.check_temp_f(t2.0) {
                        Ok(())
                    } else {
                        Err(CodegenError::UndefinedTemp(t2.0))
                    },
                    _ => Ok(()),
                },
                Err(e) => Err(e),
            },
            LValueF::Id(_) => match rhs {
                BinaryExprOperandF::LValue(LValueF::Id(_)) => self.check_fresh(),
                _ => self.check_operand_fl(rhs),
            },
        }
    }

    /// Whether the instruction can be lowered now and, if not, why: a
    /// temporary that it reads holds no value yet, or it needs a register
    /// when none is left.
    pub fn check(&self, tac: &ThreeAddressCode) -> (r: Result<(), CodegenError>)
        ensures
            same_outcome(r, lower_spec(*tac, self.state())),
    {
        proof {
            reveal(lower_spec);
        }
        match tac {
            ThreeAddressCode::AddI { lhs, rhs, .. } => self.check_arith_i(lhs, rhs),
            ThreeAddressCode::AddF { lhs, rhs, .. } => self.check_arith_f(lhs, rhs),
            ThreeAddressCode::SubI { lhs, rhs, .. } => self.check_arith_i(lhs, rhs),
            ThreeAddressCode::SubF { lhs, rhs, .. } => self.check_arith_f(lhs, rhs),
            ThreeAddressCode::MulI { lhs, rhs, .. } => self.check_arith_i(lhs, rhs),
            ThreeAddressCode::MulF { lhs, rhs, .. } => self.check_arith_f(lhs, rhs),
            ThreeAddressCode::DivI { lhs, rhs, .. } => self.check_arith_i(lhs, rhs),
            ThreeAddressCode::DivF { lhs, rhs, .. } => self.check_arith_f(lhs, rhs),
            ThreeAddressCode::GtI { lhs, rhs, .. } => self.check_cmp_i(lhs, rhs),
            ThreeAddressCode::GtF { lhs, rhs, .. } => self.check_cmp_f(lhs, rhs),
            ThreeAddressCode::LtI { lhs, rhs, .. } => self.check_cmp_i(lhs, rhs),
            ThreeAddressCode::LtF { lhs, rhs, .. } => self.check_cmp_f(lhs, rhs),
            ThreeAddressCode::GteI { lhs, rhs, .. } => self.check_cmp_i(lhs, rhs),
            ThreeAddressCode::GteF { lhs, rhs, .. } => self.check_cmp_f(lhs, rhs),
            ThreeAddressCode::LteI { lhs, rhs, .. } => self.check_cmp_i(lhs, rhs),
            ThreeAddressCode::LteF { lhs, rhs, .. } => self.check_cmp_f(lhs, rhs),
            ThreeAddressCode::NeI { lhs, rhs, .. } => self.check_cmp_i(lhs, rhs),
            ThreeAddressCode::NeF { lhs, rhs, .. } => self.check_cmp_f(lhs, rhs),
            ThreeAddressCode::EqI { lhs, rhs, .. } => self.check_cmp_i(lhs, rhs),
            ThreeAddressCode::EqF { lhs, rhs, .. } => self.check_cmp_f(lhs, rhs),
            ThreeAddressCode::StoreI { lhs, rhs } => self.check_store_i(lhs, rhs),
            ThreeAddressCode::StoreF { lhs, rhs } => self.check_store_f(lhs, rhs),
            ThreeAddressCode::PushI(o) => self.check_operand_il(o),
            ThreeAddressCode::PushF(o) => self.check_operand_fl(o),
            ThreeAddressCode::PopI(LValueI::Temp(t)) => self.check_dest_i(t.0),
            ThreeAddressCode::PopF(LValueF::Temp(t)) => self.check_dest_f(t.0),
            _ => Ok(()),
        }
    }

    fn fresh(&mut self) -> (r: Register)
        requires
            old(self).state().next < MAX_REGISTERS,
        ensures
            fresh_reg(old(self).state()) == Ok::<(Register, GenState), CodegenError>((r, final(self).state())),
    {
        Register::new(self)
    }

    fn operand_il(&self, o: &BinaryExprOperandI) -> (r: OpmrIL)
        requires
            operand_il(*o, self.state().ints) is Ok,
        ensures
            operand_il(*o, self.state().ints) == Ok::<OpmrIL, CodegenError>(r),
    {
        match o {
            BinaryExprOperandI::LValue(LValueI::Temp(t)) => OpmrIL::Location(
                Opmr::Reg(*self.int_registers.get(&t.0).unwrap()),
            ),
            BinaryExprOperandI::LValue(LValueI::Id(x)) => OpmrIL::Location(Opmr::Id(x.0.clone())),
            BinaryExprOperandI::RValue(n) => OpmrIL::Literal(*n),
        }
    }

    fn operand_fl(&self, o: &BinaryExprOperandF) -> (r: OpmrFL)
        requires
            operand_fl(*o, self.state().floats) is Ok,
        ensures
            operand_fl(*o, self.state().floats) == Ok::<OpmrFL, CodegenError>(r),
    {
        match o {
            BinaryExprOperandF::LValue(LValueF::Temp(t)) => OpmrFL::Location(
                Opmr::Reg(*self.float_registers.get(&t.0).unwrap()),
            ),
            BinaryExprOperandF::LValue(LValueF::Id(x)) => OpmrFL::Location(Opmr::Id(x.0.clone())),
            BinaryExprOperandF::RValue(n) => OpmrFL::Literal(*n),
        }
    }

    /// An int operand in a register: a temporary's own register with no
    /// move, anything else moved into a fresh register.
    fn operand_reg_i(&mut self, o: &BinaryExprOperandI) -> (r: (Register, Vec<TinyCode>))
        requires
            operand_reg_i(*o, old(self).state()) is Ok,
        ensures
            operand_reg_i(*o, old(self).state()) == Ok::<(Register, Seq<TinyCode>, GenState), CodegenError>((r.0, r.1@, final(self).state())),
    {
        match o {
            BinaryExprOperandI::LValue(LValueI::Temp(t)) => (*self.int_registers.get(&t.0).unwrap(), Vec::new()),
            _ => {
                let src = self.operand_il(o);
                let reg = self.fresh();
                (reg, one(TinyCode::Move(OpmrL::Int(src), Opmr::Reg(reg))))
            },
        }
    }

    /// A float operand in a register: a temporary's own register with no
    /// move, anything else moved into a fresh register.
    fn operand_reg_f(&mut self, o: &BinaryExprOperandF) -> (r: (Register, Vec<TinyCode>))
        requires
            operand_reg_f(*o, old(self).state()) is Ok,
        ensures
            operand_reg_f(*o, old(self).state()) == Ok::<(Register, Seq<TinyCode>, GenState), CodegenError>((r.0, r.1@, final(self).state())),
    {
        match o {
            BinaryExprOperandF::LValue(LValueF::Temp(t)) => (*self.float_registers.get(&t.0).unwrap(), Vec::new()),
            _ => {
                let src = self.operand_fl(o);
                let reg = self.fresh();
                (reg, one(TinyCode::Move(OpmrL::Float(src), Opmr::Reg(reg))))
            },
        }
    }

    /// The register of an int temporary that is written: the one that
    /// holds it, else a fresh one; the temporary is bound to it.
    fn dest_reg_i(&mut self, t: u64) -> (r: Register)
        requires
            dest_reg(old(self).state().ints, t, old(self).state()) is Ok,
        ensures
            dest_reg(old(self).state().ints, t, old(self).state()) matches Ok((r0, st1))
                && r0 == r && final(self).state() == (GenState { ints: st1.ints.insert(t, r), ..st1 }),
    {
        let reg = match self.int_registers.get(&t) {
            Some(reg) => *reg,
            None => self.fresh(),
        };
        self.int_registers.insert(t, reg);
        reg
    }

    /// The float form of `dest_reg_i`.
    fn dest_reg_f(&mut self, t: u64) -> (r: Register)
        requires
            dest_reg(old(self).state().floats, t, old(self).state()) is Ok,
        ensures
            dest_reg(old(self).state().floats, t, old(self).state()) matches Ok((r0, st1))
                && r0 == r && final(self).state() == (GenState { floats: st1.floats.insert(t, r), ..st1 }),
    {
        let reg = match self.float_registers.get(&t) {
            Some(reg) => *reg,
            None => self.fresh(),
        };
        self.float_registers.insert(t, reg);
        reg
    }

    fn lower_arith_i(&mut self, op: ArithOp, lhs: BinaryExprOperandI, rhs: BinaryExprOperandI, t: TempI) -> (r: Vec<TinyCode>)
        requires
            arith_i_spec(op, lhs, rhs, t, old(self).state()) is Ok,
        ensures
            arith_i_spec(op, lhs, rhs, t, old(self).state()) == Ok::<(Seq<TinyCode>, GenState), CodegenError>((r@, final(self).state())),
    {
        let (reg, mut code) = self.operand_reg_i(&lhs);
        let o = self.operand_il(&rhs);
        let c = match op {
            ArithOp::Add => TinyCode::AddI(o, reg),
            ArithOp::Sub => TinyCode::SubI(o, reg),
            ArithOp::Mul => TinyCode::MulI(o, reg),
            ArithOp::Div => TinyCode::DivI(o, reg),
        };
        code.push(c);
        self.int_registers.insert(t.0, reg);
        code
    }

    fn lower_arith_f(&mut self, op: ArithOp, lhs: BinaryExprOperandF, rhs: BinaryExprOperandF, t: TempF) -> (r: Vec<TinyCode>)
        requires
            arith_f_spec(op, lhs, rhs, t, old(self).state()) is Ok,
        ensures
            arith_f_spec(op, lhs, rhs, t, old(self).state()) == Ok::<(Seq<TinyCode>, GenState), CodegenError>((r@, final(self).state())),
    {
        let (reg, mut code) = self.operand_reg_f(&lhs);
        let o = self.operand_fl(&rhs);
        let c = match op {
            ArithOp::Add => TinyCode::AddF(o, reg),
            ArithOp::Sub => TinyCode::SubF(o, reg),
            ArithOp::Mul => TinyCode::MulF(o, reg),
            ArithOp::Div => TinyCode::DivF(o, reg),
        };
        code.push(c);
        self.float_registers.insert(t.0, reg);
        code
    }

    fn jump(op: CmpOp, l: crate::three_addr_code_ir::Label) -> (r: TinyCode)
        ensures
            r == jump_code(op, Label(l.0)),
    {
        let l = Label::from_ir(l);
        match op {
            CmpOp::Gt => TinyCode::Jgt(l),
            CmpOp::Lt => TinyCode::Jlt(l),
            CmpOp::Gte => TinyCode::Jge(l),
            CmpOp::Lte => TinyCode::Jle(l),
            CmpOp::Ne => TinyCode::Jne(l),
            CmpOp::Eq => TinyCode::Jeq(l),
        }
    }

    fn lower_cmp_i(&mut self, op: CmpOp, lhs: BinaryExprOperandI, rhs: BinaryExprOperandI, label: crate::three_addr_code_ir::Label) -> (r: Vec<TinyCode>)
        requires
            cmp_i_spec(op, lhs, rhs, label, old(self).state()) is Ok,
        ensures
            cmp_i_spec(op, lhs, rhs, label, old(self).state()) == Ok::<(Seq<TinyCode>, GenState), CodegenError>((r@, final(self).state())),
    {
        let o1 = self.operand_il(&lhs);
        let (reg, mut code) = self.operand_reg_i(&rhs);
        let ghost moves = code@;
        code.push(TinyCode::CmpI(o1, reg));
        code.push(Self::jump(op, label));
        assert(code@ =~= moves + seq![TinyCode::CmpI(o1, reg), jump_code(op, Label(label.0))]);
        code
    }

    fn lower_cmp_f(&mut self, op: CmpOp, lhs: BinaryExprOperandF, rhs: BinaryExprOperandF, label: crate::three_addr_code_ir::Label) -> (r: Vec<TinyCode>)
        requires
            cmp_f_spec(op, lhs, rhs, label, old(self).state()) is Ok,
        ensures
            cmp_f_spec(op, lhs, rhs, label, old(self).state()) == Ok::<(Seq<TinyCode>, GenState), CodegenError>((r@, final(self).state())),
    {
        let o1 = self.operand_fl(&lhs);
        let (reg, mut code) = self.operand_reg_f(&rhs);
        let ghost moves = code@;
        code.push(TinyCode::CmpF(o1, reg));
        code.push(Self::jump(op, label));
        assert(code@ =~= moves + seq![TinyCode::CmpF(o1, reg), jump_code(op, Label(label.0))]);
        code
    }

    fn lower_store_i(&mut self, lhs: LValueI, rhs: BinaryExprOperandI) -> (r: Vec<TinyCode>)
        requires
            store_i_spec(lhs, rhs, old(self).state()) is Ok,
        ensures
            store_i_spec(lhs, rhs, old(self).state()) == Ok::<(Seq<TinyCode>, GenState), CodegenError>((r@, final(self).state())),
    {
        match lhs {
            LValueI::Temp(t) => {
                let reg = self.dest_reg_i(t.0);
                let o = self.operand_il(&rhs);
                one(TinyCode::Move(OpmrL::Int(o), Opmr::Reg(reg)))
            },
            LValueI::Id(x) => match rhs {
                BinaryExprOperandI::LValue(LValueI::Id(y)) => {
                    let reg = self.fresh();
                    two(
                        TinyCode::Move(OpmrL::Int(OpmrIL::Location(Opmr::Id(y.0))), Opmr::Reg(reg)),
                        TinyCode::Move(OpmrL::Int(OpmrIL::Location(Opmr::Reg(reg))), Opmr::Id(x.0)),
                    )
                },
                _ => {
                    let o = self.operand_il(&rhs);
                    one(TinyCode::Move(OpmrL::Int(o), Opmr::Id(x.0)))
                },
            },
        }
    }

    fn lower_store_f(&mut self, lhs: LValueF, rhs: BinaryExprOperandF) -> (r: Vec<TinyCode>)
        requires
            store_f_spec(lhs, rhs, old(self).state()) is Ok,
        ensures
            store_f_spec(lhs, rhs, old(self).state()) == Ok::<(Seq<TinyCode>, GenState), CodegenError>((r@, final(self).state())),
    {
        match lhs {
            LValueF::Temp(t) => {
                let reg = self.dest_reg_f(t.0);
                let o = self.operand_fl(&rhs);
                one(TinyCode::Move(OpmrL::Float(o), Opmr::Reg(reg)))
            },
            LValueF::Id(x) => match rhs {
                BinaryExprOperandF::LValue(LValueF::Id(y)) => {
                    let reg = self.fresh();
                    two(
                        TinyCode::Move(OpmrL::Float(OpmrFL::Location(Opmr::Id(y.0))), Opmr::Reg(reg)),
                        TinyCode::Move(OpmrL::Float(OpmrFL::Location(Opmr::Reg(reg))), Opmr::Id(x.0)),
                    )
                },
                _ => {
                    let o = self.operand_fl(&rhs);
                    one(TinyCode::Move(OpmrL::Float(o), Opmr::Id(x.0)))
                },
            },
        }
    }

    /// The Tiny code of one instruction, given the registers of the
    /// instructions before it in the same function. The instruction must
    /// be one that can be lowered now (see `check`).
    pub fn lower(&mut self, tac: ThreeAddressCode) -> (r: Vec<TinyCode>)
        requires
            lower_spec(tac, old(self).state()) is Ok,
        ensures
            lower_spec(tac, old(self).state()) == Ok::<(Seq<TinyCode>, GenState), CodegenError>((r@, final(self).state())),
    {
        proof {
            reveal(lower_spec);
        }
        match tac {
            ThreeAddressCode::AddI { lhs, rhs, temp_result } => self.lower_arith_i(ArithOp::Add, lhs, rhs, temp_result),
            ThreeAddressCode::AddF { lhs, rhs, temp_result } => self.lower_arith_f(ArithOp::Add, lhs, rhs, temp_result),
            ThreeAddressCode::SubI { lhs, rhs, temp_result } => self.lower_arith_i(ArithOp::Sub, lhs, rhs, temp_result),
            ThreeAddressCode::SubF { lhs, rhs, temp_result } => self.lower_arith_f(ArithOp::Sub, lhs, rhs, temp_result),
            ThreeAddressCode::MulI { lhs, rhs, temp_result } => self.lower_arith_i(ArithOp::Mul, lhs, rhs, temp_result),
            ThreeAddressCode::MulF { lhs, rhs, temp_result } => self.lower_arith_f(ArithOp::Mul, lhs, rhs, temp_result),
            ThreeAddressCode::DivI { lhs, rhs, temp_result } => self.lower_arith_i(ArithOp::Div, lhs, rhs, temp_result),
            ThreeAddressCode::DivF { lhs, rhs, temp_result } => self.lower_arith_f(ArithOp::Div, lhs, rhs, temp_result),
            ThreeAddressCode::GtI { lhs, rhs, label } => self.lower_cmp_i(CmpOp::Gt, lhs, rhs, label),
            ThreeAddressCode::GtF { lhs, rhs, label } => self.lower_cmp_f(CmpOp::Gt, lhs, rhs, label),
            ThreeAddressCode::LtI { lhs, rhs, label } => self.lower_cmp_i(CmpOp::Lt, lhs, rhs, label),
            ThreeAddressCode::LtF { lhs, rhs, label } => self.lower_cmp_f(CmpOp::Lt, lhs, rhs, label),
            ThreeAddressCode::GteI { lhs, rhs, label } => self.lower_cmp_i(CmpOp::Gte, lhs, rhs, label),
            ThreeAddressCode::GteF { lhs, rhs, label } => self.lower_cmp_f(CmpOp::Gte, lhs, rhs, label),
            ThreeAddressCode::LteI { lhs, rhs, label } => self.lower_cmp_i(CmpOp::Lte, lhs, rhs, label),
            ThreeAddressCode::LteF { lhs, rhs, label } => self.lower_cmp_f(CmpOp::Lte, lhs, rhs, label),
            ThreeAddressCode::NeI { lhs, rhs, label } => self.lower_cmp_i(CmpOp::Ne, lhs, rhs, label),
            ThreeAddressCode::NeF { lhs, rhs, label } => self.lower_cmp_f(CmpOp::Ne, lhs, rhs, label),
            ThreeAddressCode::EqI { lhs, rhs, label } => self.lower_cmp_i(CmpOp::Eq, lhs, rhs, label),
            ThreeAddressCode::EqF { lhs, rhs, label } => self.lower_cmp_f(CmpOp::Eq, lhs, rhs, label),
            ThreeAddressCode::StoreI { lhs, rhs } => self.lower_store_i(lhs, rhs),
            ThreeAddressCode::StoreF { lhs, rhs } => self.lower_store_f(lhs, rhs),
            ThreeAddressCode::ReadI { identifier } => one(TinyCode::ReadI(Opmr::Id(identifier.0))),
            ThreeAddressCode::ReadF { identifier } => one(TinyCode::ReadF(Opmr::Id(identifier.0))),
            ThreeAddressCode::WriteI { identifier } => one(TinyCode::WriteI(Opmr::Id(identifier.0))),
            ThreeAddressCode::WriteF { identifier } => one(TinyCode::WriteF(Opmr::Id(identifier.0))),
            ThreeAddressCode::WriteS { identifier } => one(TinyCode::WriteS(identifier.0)),
            ThreeAddressCode::Label(l) => one(TinyCode::Label(Label::from_ir(l))),
            ThreeAddressCode::Jump(l) => one(TinyCode::Jmp(Label::from_ir(l))),
            ThreeAddressCode::FunctionLabel(f) => one(TinyCode::FunctionLabel(f.0.name_string())),
            ThreeAddressCode::PushI(o) => {
                let v = self.operand_il(&o);
                one(TinyCode::Push(Some(OpmrL::Int(v))))
            },
            ThreeAddressCode::PushF(o) => {
                let v = self.operand_fl(&o);
                one(TinyCode::Push(Some(OpmrL::Float(v))))
            },
            ThreeAddressCode::PopI(l) => match l {
                LValueI::Temp(t) => {
                    let r = self.dest_reg_i(t.0);
                    one(TinyCode::Pop(Some(Opmr::Reg(r))))
                },
                LValueI::Id(x) => one(TinyCode::Pop(Some(Opmr::Id(x.0)))),
            },
            ThreeAddressCode::PopF(l) => match l {
                LValueF::Temp(t) => {
                    let r = self.dest_reg_f(t.0);
                    one(TinyCode::Pop(Some(Opmr::Reg(r))))
                },
                LValueF::Id(x) => one(TinyCode::Pop(Some(Opmr::Id(x.0)))),
            },
            ThreeAddressCode::Jsr(f) => one(TinyCode::Jsr(f.0.name_string())),
            ThreeAddressCode::Ret => one(TinyCode::Ret),
            ThreeAddressCode::Link(f) => {
                let n = f.0.locals_count();
                if n > u32::MAX as usize {
                    one(TinyCode::Link(None))
                } else {
                    one(TinyCode::Link(Some(n as u32)))
                }
            },
            ThreeAddressCode::Unlink => one(TinyCode::Unlink),
        }
    }
}

fn one(c: TinyCode) -> (r: Vec<TinyCode>)
    ensures
        r@ == seq![c],
{
    let mut r: Vec<TinyCode> = Vec::new();
    r.push(c);
    assert(r@ =~= seq![c]);
    r
}

fn two(a: TinyCode, b: TinyCode) -> (r: Vec<TinyCode>)
    ensures
        r@ == seq![a, b],
{
    let mut r: Vec<TinyCode> = Vec::new();
    r.push(a);
    r.push(b);
    assert(r@ =~= seq![a, b]);
    r
}

/// The code of a run that follows `acc`: `acc` before its code, if any.
pub open spec fn after(
    acc: Seq<TinyCode>,
    r: Result<(Seq<TinyCode>, GenState), CodegenError>,
) -> Result<(Seq<TinyCode>, GenState), CodegenError> {
    match r {
        Ok((c, st)) => Ok((acc + c, st)),
        Err(e) => Err(e),
    }
}

impl TinyCodeSequence {
    /// The Tiny code of one function. Registers and the temporaries they
    /// hold start afresh: nothing of an earlier function carries over.
    /// Every temporary that the code reads must have been written before,
    /// and the code must fit in the register file (see
    /// `try_from_function`).
    pub fn from_function(code: Vec<ThreeAddressCode>, ctx: &mut CodegenContext) -> (r: TinyCodeSequence)
        requires
            lower_all(code@, fresh_state()) is Ok,
        ensures
            lower_all(code@, fresh_state()) == Ok::<(Seq<TinyCode>, GenState), CodegenError>((r.sequence@, final(ctx).state())),
    {
        ctx.reset();
        let ghost orig = code@;
        let mut rest = code;
        let mut out: Vec<TinyCode> = Vec::new();
        while rest.len() > 0
            invariant
                orig == code@,
                lower_all(orig, fresh_state()) is Ok,
                lower_all(orig, fresh_state()) == after(out@, lower_all(rest@, ctx.state())),
            decreases rest.len(),
        {
            let ghost before = rest@;
            let ghost out_before = out@;
            let tac = rest.remove(0);
            assert(before.drop_first() =~= rest@);
            let mut c = ctx.lower(tac);
            let ghost cs = c@;
            out.append(&mut c);
            proof {
                assert(out@ =~= out_before + cs);
                match lower_all(rest@, ctx.state()) {
                    Ok((tail, _)) => {
                        assert(out_before + (cs + tail) =~= out@ + tail);
                    },
                    Err(_) => {},
                }
            }
        }
        assert(out@ + Seq::<TinyCode>::empty() =~= out@);
        TinyCodeSequence { sequence: out }
    }

    /// The Tiny code of one function, or why it has none: the first
    /// instruction that reads a temporary not yet written, or that needs
    /// a register when the register file is full.
    pub fn try_from_function(code: Vec<ThreeAddressCode>, ctx: &mut CodegenContext) -> (r: Result<
        TinyCodeSequence,
        CodegenError,
    >)
        ensures
            match r {
                Ok(seq) => lower_all(code@, fresh_state()) == Ok::<(Seq<TinyCode>, GenState), CodegenError>((seq.sequence@, final(ctx).state())),
                Err(e) => lower_all(code@, fresh_state()) == Err::<(Seq<TinyCode>, GenState), CodegenError>(e),
            },
    {
        ctx.reset();
        let ghost orig = code@;
        let mut rest = code;
        let mut out: Vec<TinyCode> = Vec::new();
        while rest.len() > 0
            invariant
                orig == code@,
                lower_all(orig, fresh_state()) == after(out@, lower_all(rest@, ctx.state())),
            decreases rest.len(),
        {
            let ghost before = rest@;
            let ghost out_before = out@;
            let ghost st_before = ctx.state();
            let tac = rest.remove(0);
            assert(before.drop_first() =~= rest@);
            match ctx.check(&tac) {
                Ok(_) => {},
                Err(e) => {
                    assert(lower_all(before, st_before) == Err::<(Seq<TinyCode>, GenState), CodegenError>(e));
                    return Err(e);
                },
            }
            let mut c = ctx.lower(tac);
            let ghost cs = c@;
            out.append(&mut c);
            proof {
                assert(out@ =~= out_before + cs);
                match lower_all(rest@, ctx.state()) {
                    Ok((tail, _)) => {
                        assert(out_before + (cs + tail) =~= out@ + tail);
                    },
                    Err(_) => {},
                }
            }
        }
        assert(out@ + Seq::<TinyCode>::empty() =~= out@);
        Ok(TinyCodeSequence { sequence: out })
    }
}

/// The declaration of a global symbol: `var` for a number, `str` with its
/// value for a string.
pub open spec fn declaration(s: NonFunctionScopedSymbol) -> TinyCode {
    match s {
        NonFunctionScopedSymbol::Int { name } => TinyCode::Var(name),
        NonFunctionScopedSymbol::Float { name } => TinyCode::Var(name),
        NonFunctionScopedSymbol::String { name, value } => TinyCode::Str(Sid { id: name, value }),
    }
}

/// The code of the functions, one after the other, each generated with
/// registers that start afresh.
pub open spec fn functions_spec(fns: Seq<Seq<ThreeAddressCode>>) -> Result<Seq<TinyCode>, CodegenError>
    decreases fns.len(),
{
    if fns.len() == 0 {
        Ok(Seq::empty())
    } else {
        match lower_all(fns[0], fresh_state()) {
            Ok((c, _)) => match functions_spec(fns.drop_first()) {
                Ok(rest) => Ok(c + rest),
                Err(e) => Err(e),
            },
            Err(e) => Err(e),
        }
    }
}

impl TinyCodeSequence {
    /// A whole program: the declarations of its global symbols, the code of
    /// each function, then `sys halt`. Each function must be one that
    /// `from_function` takes.
    pub fn from_program(
        symbols: &Vec<NonFunctionScopedSymbol>,
        functions: Vec<Vec<ThreeAddressCode>>,
        ctx: &mut CodegenContext,
    ) -> (r: TinyCodeSequence)
        requires
            functions_spec(functions@.map_values(|f: Vec<ThreeAddressCode>| f@)) is Ok,
        ensures
            functions_spec(functions@.map_values(|f: Vec<ThreeAddressCode>| f@)) matches Ok(c)
                && r.sequence@ == symbols@.map_values(|d: NonFunctionScopedSymbol| declaration(d)) + c + seq![TinyCode::Halt],
    {
        let ghost decls = symbols@.map_values(|d: NonFunctionScopedSymbol| declaration(d));
        let mut out: Vec<TinyCode> = Vec::new();
        let mut i: usize = 0;
        while i < symbols.len()
            invariant
                0 <= i <= symbols.len(),
                decls == symbols@.map_values(|d: NonFunctionScopedSymbol| declaration(d)),
                out@ == decls.take(i as int),
            decreases symbols.len() - i,
        {
            let d = match &symbols[i] {
                NonFunctionScopedSymbol::Int { name } => TinyCode::Var(name.clone()),
                NonFunctionScopedSymbol::Float { name } => TinyCode::Var(name.clone()),
                NonFunctionScopedSymbol::String { name, value } => TinyCode::Str(
                    Sid { id: name.clone(), value: value.clone() },
                ),
            };
            out.push(d);
            assert(out@ =~= decls.take(i as int + 1));
            i = i + 1;
        }
        assert(decls.take(symbols.len() as int) =~= decls);
        let ghost orig = functions@.map_values(|f: Vec<ThreeAddressCode>| f@);
        let mut rest = functions;
        let ghost code_start = out@;
        while rest.len() > 0
            invariant
                orig == functions@.map_values(|f: Vec<ThreeAddressCode>| f@),
                code_start == decls,
                out@.len() >= decls.len(),
                out@.subrange(0, decls.len() as int) == decls,
                functions_spec(orig) is Ok,
                functions_spec(orig) == match functions_spec(rest@.map_values(|f: Vec<ThreeAddressCode>| f@)) {
                    Ok(c) => Ok(out@.subrange(decls.len() as int, out@.len() as int) + c),
                    Err(e) => Err::<Seq<TinyCode>, CodegenError>(e),
                },
            decreases rest.len(),
        {
            let ghost before = rest@.map_values(|f: Vec<ThreeAddressCode>| f@);
            let ghost out_before = out@;
            let f = rest.remove(0);
            assert(before[0] == f@);
            assert(before.drop_first() =~= rest@.map_values(|f: Vec<ThreeAddressCode>| f@));
            let s = Self::from_function(f, ctx);
            let mut c = s.sequence;
            let ghost cs = c@;
            out.append(&mut c);
            proof {
                assert(out@ =~= out_before + cs);
                assert(out@.subrange(0, decls.len() as int) =~= out_before.subrange(0, decls.len() as int));
                let tail = out_before.subrange(decls.len() as int, out_before.len() as int);
                assert(out@.subrange(decls.len() as int, out@.len() as int) =~= tail + cs);
                match functions_spec(rest@.map_values(|f: Vec<ThreeAddressCode>| f@)) {
                    Ok(more) => {
                        assert(tail + (cs + more) =~= (tail + cs) + more);
                    },
                    Err(_) => {},
                }
            }
        }
        let ghost body = out@.subrange(decls.len() as int, out@.len() as int);
        assert(rest@.map_values(|f: Vec<ThreeAddressCode>| f@) =~= Seq::<Seq<ThreeAddressCode>>::empty());
        assert(body + Seq::<TinyCode>::empty() =~= body);
        assert(out@ =~= decls + body);
        out.push(TinyCode::Halt);
        TinyCodeSequence { sequence: out }
    }
}

/// A move has at most one memory operand: storing variable `y` into
/// variable `x` loads `y` into a fresh register, then stores that
/// register into `x`, two instructions, never one move from memory to
/// memory.
pub proof fn lemma_store_between_variables(x: IdentI, y: IdentI, st: GenState)
    requires
        st.next < MAX_REGISTERS,
    ensures
        ({
            let r = Register(st.next as u64);
            lower_spec(
                ThreeAddressCode::StoreI {
                    lhs: LValueI::Id(x),
                    rhs: BinaryExprOperandI::LValue(LValueI::Id(y)),
                },
                st,
            ) == Ok::<(Seq<TinyCode>, GenState), CodegenError>(
                (
                    seq![
                        TinyCode::Move(OpmrL::Int(OpmrIL::Location(Opmr::Id(y.0))), Opmr::Reg(r)),
                        TinyCode::Move(OpmrL::Int(OpmrIL::Location(Opmr::Reg(r))), Opmr::Id(x.0)),
                    ],
                    GenState { next: st.next + 1, ..st },
                ),
            )
        }),
{
    reveal(lower_spec);
}

/// The left operand's register is reused: for `t1 := a + b` followed by
/// `t2 := t1 + c`, the first instruction moves `a` into a fresh register
/// and adds `b` to it; the second finds `t1` in that register and adds
/// `c` to it there, with no move and no further register.
pub proof fn lemma_left_register_reused(
    a: IdentI,
    b: IdentI,
    c: IdentI,
    t1: TempI,
    t2: TempI,
    st: GenState,
)
    requires
        st.next < MAX_REGISTERS,
    ensures
        ({
            let r = Register(st.next as u64);
            let code = seq![
                ThreeAddressCode::AddI {
                    lhs: BinaryExprOperandI::LValue(LValueI::Id(a)),
                    rhs: BinaryExprOperandI::LValue(LValueI::Id(b)),
                    temp_result: t1,
                },
                ThreeAddressCode::AddI {
                    lhs: BinaryExprOperandI::LValue(LValueI::Temp(t1)),
                    rhs: BinaryExprOperandI::LValue(LValueI::Id(c)),
                    temp_result: t2,
                },
            ];
            lower_all(code, st) == Ok::<(Seq<TinyCode>, GenState), CodegenError>(
                (
                    seq![
                        TinyCode::Move(OpmrL::Int(OpmrIL::Location(Opmr::Id(a.0))), Opmr::Reg(r)),
                        TinyCode::AddI(OpmrIL::Location(Opmr::Id(b.0)), r),
                        TinyCode::AddI(OpmrIL::Location(Opmr::Id(c.0)), r),
                    ],
                    GenState {
                        next: st.next + 1,
                        ints: st.ints.insert(t1.0, r).insert(t2.0, r),
                        floats: st.floats,
                    },
                ),
            )
        }),
{
    reveal(lower_spec);
    let r = Register(st.next as u64);
    let code = seq![
        ThreeAddressCode::AddI {
            lhs: BinaryExprOperandI::LValue(LValueI::Id(a)),
            rhs: BinaryExprOperandI::LValue(LValueI::Id(b)),
            temp_result: t1,
        },
        ThreeAddressCode::AddI {
            lhs: BinaryExprOperandI::LValue(LValueI::Temp(t1)),
            rhs: BinaryExprOperandI::LValue(LValueI::Id(c)),
            temp_result: t2,
        },
    ];
    let st1 = GenState { next: st.next + 1, ints: st.ints.insert(t1.0, r), floats: st.floats };
    let c1 = seq![
        TinyCode::Move(OpmrL::Int(OpmrIL::Location(Opmr::Id(a.0))), Opmr::Reg(r)),
        TinyCode::AddI(OpmrIL::Location(Opmr::Id(b.0)), r),
    ];
    let mid = GenState { next: st.next + 1, ..st };
    let m1 = seq![TinyCode::Move(OpmrL::Int(OpmrIL::Location(Opmr::Id(a.0))), Opmr::Reg(r))];
    assert(fresh_reg(st) == Ok::<(Register, GenState), CodegenError>((r, mid)));
    assert(operand_reg_i(BinaryExprOperandI::LValue(LValueI::Id(a)), st) == Ok::<(Register, Seq<TinyCode>, GenState), CodegenError>((r, m1, mid)));
    assert(m1.push(TinyCode::AddI(OpmrIL::Location(Opmr::Id(b.0)), r)) =~= c1);
    assert(lower_spec(code[0], st) == Ok::<(Seq<TinyCode>, GenState), CodegenError>((c1, st1)));
    let rest = code.drop_first();
    let c2 = seq![TinyCode::AddI(OpmrIL::Location(Opmr::Id(c.0)), r)];
    let st2 = GenState { ints: st1.ints.insert(t2.0, r), ..st1 };
    assert(st1.ints.contains_key(t1.0));
    assert(lower_spec(rest[0], st1) == Ok::<(Seq<TinyCode>, GenState), CodegenError>((c2, st2)));
    assert(rest.drop_first().len() == 0);
    assert(lower_all(rest.drop_first(), st2) == Ok::<(Seq<TinyCode>, GenState), CodegenError>((Seq::<TinyCode>::empty(), st2)));
    assert(c2 + Seq::<TinyCode>::empty() =~= c2);
    assert(lower_all(rest, st1) == Ok::<(Seq<TinyCode>, GenState), CodegenError>((c2, st2)));
    assert(c1 + c2 =~= seq![
        TinyCode::Move(OpmrL::Int(OpmrIL::Location(Opmr::Id(a.0))), Opmr::Reg(r)),
        TinyCode::AddI(OpmrIL::Location(Opmr::Id(b.0)), r),
        TinyCode::AddI(OpmrIL::Location(Opmr::Id(c.0)), r),
    ]);
}

} // verus!
