//! The three-address code instruction set.
use vstd::prelude::*;

use crate::three_addr_code_ir::{
    BinaryExprOperandF, BinaryExprOperandI, FunctionIdent, IdentF, IdentI, IdentS, LValueF,
    LValueI, TempF, TempI,
};

verus! {

/// One three-address code instruction. A relational instruction means
/// "if `lhs` OP `rhs`, jump to `label`".
#[derive(Debug, PartialEq, Eq, Hash, Clone)]
pub enum ThreeAddressCode {
    AddI { lhs: BinaryExprOperandI, rhs: BinaryExprOperandI, temp_result: TempI },
    SubI { lhs: BinaryExprOperandI, rhs: BinaryExprOperandI, temp_result: TempI },
    MulI { lhs: BinaryExprOperandI, rhs: BinaryExprOperandI, temp_result: TempI },
    DivI { lhs: BinaryExprOperandI, rhs: BinaryExprOperandI, temp_result: TempI },
    StoreI { lhs: LValueI, rhs: BinaryExprOperandI },
    ReadI { identifier: IdentI },
    WriteI { identifier: IdentI },
    AddF { lhs: BinaryExprOperandF, rhs: BinaryExprOperandF, temp_result: TempF },
    SubF { lhs: BinaryExprOperandF, rhs: BinaryExprOperandF, temp_result: TempF },
    MulF { lhs: BinaryExprOperandF, rhs: BinaryExprOperandF, temp_result: TempF },
    DivF { lhs: BinaryExprOperandF, rhs: BinaryExprOperandF, temp_result: TempF },
    StoreF { lhs: LValueF, rhs: BinaryExprOperandF },
    ReadF { identifier: IdentF },
    WriteF { identifier: IdentF },
    WriteS { identifier: IdentS },
    GtI { lhs: BinaryExprOperandI, rhs: BinaryExprOperandI, label: crate::three_addr_code_ir::Label },
    LtI { lhs: BinaryExprOperandI, rhs: BinaryExprOperandI, label: crate::three_addr_code_ir::Label },
    GteI { lhs: BinaryExprOperandI, rhs: BinaryExprOperandI, label: crate::three_addr_code_ir::Label },
    LteI { lhs: BinaryExprOperandI, rhs: BinaryExprOperandI, label: crate::three_addr_code_ir::Label },
    NeI { lhs: BinaryExprOperandI, rhs: BinaryExprOperandI, label: crate::three_addr_code_ir::Label },
    EqI { lhs: BinaryExprOperandI, rhs: BinaryExprOperandI, label: crate::three_addr_code_ir::Label },
    GtF { lhs: BinaryExprOperandF, rhs: BinaryExprOperandF, label: crate::three_addr_code_ir::Label },
    LtF { lhs: BinaryExprOperandF, rhs: BinaryExprOperandF, label: crate::three_addr_code_ir::Label },
    GteF { lhs: BinaryExprOperandF, rhs: BinaryExprOperandF, label: crate::three_addr_code_ir::Label },
    LteF { lhs: BinaryExprOperandF, rhs: BinaryExprOperandF, label: crate::three_addr_code_ir::Label },
    NeF { lhs: BinaryExprOperandF, rhs: BinaryExprOperandF, label: crate::three_addr_code_ir::Label },
    EqF { lhs: BinaryExprOperandF, rhs: BinaryExprOperandF, label: crate::three_addr_code_ir::Label },
    Label(crate::three_addr_code_ir::Label),
    Jump(crate::three_addr_code_ir::Label),
    FunctionLabel(FunctionIdent),
    PushI(BinaryExprOperandI),
    PushF(BinaryExprOperandF),
    PopI(LValueI),
    PopF(LValueF),
    Jsr(FunctionIdent),
    Ret,
    Link(FunctionIdent),
    Unlink,
}

impl ThreeAddressCode {
    /// The label that the instruction may transfer control to: that of a
    /// relational instruction or of a jump.
    pub open spec fn spec_target(&self) -> Option<u64> {
        match self {
            ThreeAddressCode::GtI { label, .. } => Some(label.0),
            ThreeAddressCode::LtI { label, .. } => Some(label.0),
            ThreeAddressCode::GteI { label, .. } => Some(label.0),
            ThreeAddressCode::LteI { label, .. } => Some(label.0),
            ThreeAddressCode::NeI { label, .. } => Some(label.0),
            ThreeAddressCode::EqI { label, .. } => Some(label.0),
            ThreeAddressCode::GtF { label, .. } => Some(label.0),
            ThreeAddressCode::LtF { label, .. } => Some(label.0),
            ThreeAddressCode::GteF { label, .. } => Some(label.0),
            ThreeAddressCode::LteF { label, .. } => Some(label.0),
            ThreeAddressCode::NeF { label, .. } => Some(label.0),
            ThreeAddressCode::EqF { label, .. } => Some(label.0),
            ThreeAddressCode::Jump(label) => Some(label.0),
            _ => None,
        }
    }

    /// Control never goes on to the next instruction: a jump or a return.
    pub open spec fn spec_is_unconditional_branch(&self) -> bool {
        self is Jump || self is Ret
    }

    /// The instruction ends a basic block: a branch, a jump or a return.
    pub open spec fn spec_is_terminator(&self) -> bool {
        self.spec_target() is Some || self is Ret
    }

    /// The instruction is a jump target.
    pub open spec fn spec_is_label(&self) -> bool {
        self is Label
    }

    pub fn get_label_if_branch_or_jump(&self) -> (r: Option<crate::three_addr_code_ir::Label>)
        ensures
            match r {
                Some(l) => self.spec_target() == Some(l.0),
                None => self.spec_target() is None,
            },
    {
        match self {
            ThreeAddressCode::GtI { label, .. } => Some(*label),
            ThreeAddressCode::LtI { label, .. } => Some(*label),
            ThreeAddressCode::GteI { label, .. } => Some(*label),
            ThreeAddressCode::LteI { label, .. } => Some(*label),
            ThreeAddressCode::NeI { label, .. } => Some(*label),
            ThreeAddressCode::EqI { label, .. } => Some(*label),
            ThreeAddressCode::GtF { label, .. } => Some(*label),
            ThreeAddressCode::LtF { label, .. } => Some(*label),
            ThreeAddressCode::GteF { label, .. } => Some(*label),
            ThreeAddressCode::LteF { label, .. } => Some(*label),
            ThreeAddressCode::NeF { label, .. } => Some(*label),
            ThreeAddressCode::EqF { label, .. } => Some(*label),
            ThreeAddressCode::Jump(label) => Some(*label),
            _ => None,
        }
    }

    pub fn is_unconditional_branch(&self) -> (r: bool)
        ensures
            r == self.spec_is_unconditional_branch(),
    {
        match self {
            ThreeAddressCode::Jump(_) => true,
            ThreeAddressCode::Ret => true,
            _ => false,
        }
    }

    pub fn is_bb_terminator(&self) -> (r: bool)
        ensures
            r == self.spec_is_terminator(),
    {
        match self {
            ThreeAddressCode::Ret => true,
            _ => self.get_label_if_branch_or_jump().is_some(),
        }
    }

    pub fn is_label(&self) -> (r: bool)
        ensures
            r == self.spec_is_label(),
    {
        match self {
            ThreeAddressCode::Label(_) => true,
            _ => false,
        }
    }
}

} // verus!
