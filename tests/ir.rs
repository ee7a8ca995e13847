use microc::ast::ast_node::Identifier;
use microc::symbol_table::symbol::data::{DataType, NonFunctionScopedSymbol};
use microc::symbol_table::symbol::function::{ReturnType, Symbol};
use microc::symbol_table::symbol::NumType;
use microc::three_addr_code_ir::three_address_code::ThreeAddressCode;
use microc::three_addr_code_ir::{
    BinaryExprOperandI, IrContext, Label, LValueI, ResultType, TempF, TempI,
};

#[test]
fn temps_restart_per_function_and_labels_do_not() {
    let mut ctx = IrContext::new();
    assert_eq!(TempI::new(&mut ctx), TempI(1));
    assert_eq!(TempF::new(&mut ctx), TempF(2));
    assert_eq!(Label::new(&mut ctx), Label(1));
    ctx.reset_temps();
    assert_eq!(TempI::new(&mut ctx), TempI(1));
    let l = Label::new(&mut ctx);
    assert_eq!(l, Label(2));
    assert_eq!(l.label(), 2);
}

#[test]
fn result_type_of_data_types() {
    assert_eq!(ResultType::from_data_type(DataType::Num(NumType::Int)), ResultType::Int);
    assert_eq!(ResultType::from_data_type(DataType::Num(NumType::Float)), ResultType::Float);
}

#[test]
fn symbols_and_identifiers() {
    let s = NonFunctionScopedSymbol::String { name: "greeting".to_owned(), value: "hi".to_owned() };
    assert_eq!(s.name(), "greeting");
    assert_eq!(s.data_type(), DataType::String);
    let id = Identifier { symbol: NonFunctionScopedSymbol::Float { name: "x".to_owned() } };
    assert_eq!(id.data_type(), DataType::Num(NumType::Float));
    assert_eq!(id.to_name(), "x".to_owned());
    assert_eq!(microc::three_addr_code_ir::IdentF::from_identifier(&id).0, "x".to_owned());
    let f = Symbol::new("main".to_owned(), ReturnType::Void, vec![NumType::Int], vec![]);
    assert_eq!(f.name(), "main");
    assert_eq!(f.locals_count(), 0);
}

#[test]
fn branch_classification() {
    let jump = ThreeAddressCode::Jump(Label(3));
    assert!(jump.is_unconditional_branch());
    assert!(jump.is_bb_terminator());
    assert_eq!(jump.get_label_if_branch_or_jump(), Some(Label(3)));
    let branch = ThreeAddressCode::NeI {
        lhs: BinaryExprOperandI::RValue(1),
        rhs: BinaryExprOperandI::LValue(LValueI::Temp(TempI(1))),
        label: Label(4),
    };
    assert!(!branch.is_unconditional_branch());
    assert!(branch.is_bb_terminator());
    assert_eq!(branch.get_label_if_branch_or_jump(), Some(Label(4)));
    assert!(ThreeAddressCode::Ret.is_unconditional_branch());
    assert!(ThreeAddressCode::Label(Label(1)).is_label());
    assert!(!ThreeAddressCode::Unlink.is_bb_terminator());
    assert!(BinaryExprOperandI::LValue(LValueI::Id(microc::three_addr_code_ir::IdentI("a".to_owned()))).is_mem_ref());
    assert!(!BinaryExprOperandI::RValue(0).is_mem_ref());
}
