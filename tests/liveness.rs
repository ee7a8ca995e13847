use std::collections::HashSet;

use microc::cfg::basic_block::{BBLabel, ImmutableBasicBlock};
use microc::cfg::liveness::{
    global_lvalues, LivenessDecoratedImmutableBasicBlock, LivenessDecoratedThreeAddressCode,
};
use microc::symbol_table::symbol::data::NonFunctionScopedSymbol;
use microc::symbol_table::symbol::function::{self, ReturnType};
use microc::three_addr_code_ir::three_address_code::ThreeAddressCode;
use microc::three_addr_code_ir::{BinaryExprOperandI, FunctionIdent, IdentI, LValue, LValueI, TempI};

fn set(v: &Vec<LValue>) -> HashSet<LValue> {
    v.iter().cloned().collect()
}

fn set_of(v: Vec<LValue>) -> HashSet<LValue> {
    v.into_iter().collect()
}

fn int_id(name: &str) -> IdentI {
    IdentI(name.to_owned())
}

fn id_loc(id: &IdentI) -> LValue {
    LValue::LValueI(LValueI::Id(id.clone()))
}

/// Checks one decorated instruction against its expected sets.
fn check(
    d: &LivenessDecoratedThreeAddressCode,
    tac: &ThreeAddressCode,
    gen: Vec<LValue>,
    kill: Vec<LValue>,
) {
    assert_eq!(d.tac(), tac);
    assert_eq!(set(d.gen_set()), set_of(gen));
    assert_eq!(set(d.kill_set()), set_of(kill));
    assert_eq!(set(d.in_set()), HashSet::new());
    assert_eq!(set(d.out_set()), HashSet::new());
}

fn decorate(seq: Vec<ThreeAddressCode>, globals: &Vec<LValue>) -> LivenessDecoratedImmutableBasicBlock {
    let bb_label = BBLabel(0);
    let immutable_bb = ImmutableBasicBlock::new(bb_label, seq);
    let decorated = LivenessDecoratedImmutableBasicBlock::from_block(immutable_bb, globals);
    assert_eq!(decorated.label(), bb_label);
    decorated
}

#[test]
fn push_instruction_gens_var_being_pushed() {
    let a = int_id("A");
    let tac = ThreeAddressCode::PushI(BinaryExprOperandI::LValue(LValueI::Id(a.clone())));
    let bb = decorate(vec![tac.clone()], &vec![]);
    assert_eq!(bb.seq().len(), 1);
    check(&bb.seq()[0], &tac, vec![id_loc(&a)], vec![]);
}

#[test]
fn pop_instruction_kills_var_being_pushed() {
    let a = int_id("A");
    let tac = ThreeAddressCode::PopI(LValueI::Id(a.clone()));
    let bb = decorate(vec![tac.clone()], &vec![]);
    assert_eq!(bb.seq().len(), 1);
    check(&bb.seq()[0], &tac, vec![], vec![id_loc(&a)]);
}

#[test]
fn write_instruction_kills_var_being_pushed() {
    let a = int_id("A");
    let tac = ThreeAddressCode::WriteI { identifier: a.clone() };
    let bb = decorate(vec![tac.clone()], &vec![]);
    assert_eq!(bb.seq().len(), 1);
    check(&bb.seq()[0], &tac, vec![id_loc(&a)], vec![]);
}

#[test]
fn read_instruction_kills_var_being_pushed() {
    let a = int_id("A");
    let tac = ThreeAddressCode::ReadI { identifier: a.clone() };
    let bb = decorate(vec![tac.clone()], &vec![]);
    assert_eq!(bb.seq().len(), 1);
    check(&bb.seq()[0], &tac, vec![], vec![id_loc(&a)]);
}

#[test]
fn call_instruction_gens_all_globals() {
    let symbols = vec![
        NonFunctionScopedSymbol::Int { name: "A".to_owned() },
        NonFunctionScopedSymbol::Int { name: "B".to_owned() },
        NonFunctionScopedSymbol::Int { name: "C".to_owned() },
    ];
    let globals = global_lvalues(&symbols);
    let function_ident = FunctionIdent(function::Symbol::new(
        "some_func".to_owned(),
        ReturnType::Void,
        vec![],
        vec![],
    ));
    let tac = ThreeAddressCode::Jsr(function_ident.clone());
    let bb = decorate(vec![tac.clone()], &globals);
    assert_eq!(bb.seq().len(), 1);
    check(
        &bb.seq()[0],
        &tac,
        vec![id_loc(&int_id("A")), id_loc(&int_id("B")), id_loc(&int_id("C"))],
        vec![],
    );
}

#[test]
fn gen_kill_sets_for_bb() {
    let a = int_id("A");
    let b = int_id("B");
    let c = int_id("C");
    let d = int_id("D");
    let (t1, t2) = (TempI(1), TempI(2));

    // d = a + b * c
    let seq = vec![
        ThreeAddressCode::MulI {
            lhs: BinaryExprOperandI::LValue(LValueI::Id(b.clone())),
            rhs: BinaryExprOperandI::LValue(LValueI::Id(c.clone())),
            temp_result: t1,
        },
        ThreeAddressCode::AddI {
            lhs: BinaryExprOperandI::LValue(LValueI::Temp(t1)),
            rhs: BinaryExprOperandI::LValue(LValueI::Id(a.clone())),
            temp_result: t2,
        },
        ThreeAddressCode::StoreI {
            lhs: LValueI::Id(d.clone()),
            rhs: BinaryExprOperandI::LValue(LValueI::Temp(t2)),
        },
    ];
    let bb = decorate(seq.clone(), &vec![]);
    assert_eq!(bb.seq().len(), 3);
    check(
        &bb.seq()[0],
        &seq[0],
        vec![id_loc(&b), id_loc(&c)],
        vec![LValue::LValueI(LValueI::Temp(t1))],
    );
    check(
        &bb.seq()[1],
        &seq[1],
        vec![LValue::LValueI(LValueI::Temp(t1)), id_loc(&a)],
        vec![LValue::LValueI(LValueI::Temp(t2))],
    );
    check(
        &bb.seq()[2],
        &seq[2],
        vec![LValue::LValueI(LValueI::Temp(t2))],
        vec![id_loc(&d)],
    );
}

#[test]
fn return_makes_globals_live_after_it() {
    let symbols = vec![
        NonFunctionScopedSymbol::Int { name: "g".to_owned() },
        NonFunctionScopedSymbol::Float { name: "h".to_owned() },
        NonFunctionScopedSymbol::String { name: "s".to_owned(), value: "hi".to_owned() },
    ];
    let globals = global_lvalues(&symbols);
    assert_eq!(globals.len(), 2);
    let d = LivenessDecoratedThreeAddressCode::from_tac(ThreeAddressCode::Ret, &globals);
    assert!(d.gen_set().is_empty());
    assert!(d.kill_set().is_empty());
    assert_eq!(set(d.out_set()), set(&globals));
}

#[test]
fn store_kills_destination_even_when_it_is_read() {
    let x = int_id("x");
    let tac = ThreeAddressCode::StoreI {
        lhs: LValueI::Id(x.clone()),
        rhs: BinaryExprOperandI::LValue(LValueI::Id(x.clone())),
    };
    let d = LivenessDecoratedThreeAddressCode::from_tac(tac, &vec![]);
    assert_eq!(set(d.gen_set()), set_of(vec![id_loc(&x)]));
    assert_eq!(set(d.kill_set()), set_of(vec![id_loc(&x)]));
}

#[test]
fn literal_operands_are_not_read() {
    let tac = ThreeAddressCode::StoreI {
        lhs: LValueI::Temp(TempI(3)),
        rhs: BinaryExprOperandI::RValue(7),
    };
    let d = LivenessDecoratedThreeAddressCode::from_tac(tac, &vec![]);
    assert!(d.gen_set().is_empty());
    assert_eq!(set(d.kill_set()), set_of(vec![LValue::LValueI(LValueI::Temp(TempI(3)))]));
}
