use microc::codegen::tiny::{
    CodegenContext, CodegenError, Label, Opmr, OpmrFL, OpmrIL, OpmrL, Register, Sid, TinyCode,
    TinyCodeSequence, MAX_REGISTERS,
};
use microc::symbol_table::symbol::data::NonFunctionScopedSymbol;
use microc::symbol_table::symbol::function::{self, ReturnType};
use microc::symbol_table::symbol::NumType;
use microc::three_addr_code_ir::three_address_code::ThreeAddressCode;
use microc::three_addr_code_ir::{
    self, BinaryExprOperandF, BinaryExprOperandI, FloatLit, FunctionIdent, IdentF, IdentI, IdentS,
    LValueF, LValueI, TempF, TempI,
};

fn id(name: &str) -> BinaryExprOperandI {
    BinaryExprOperandI::LValue(LValueI::Id(IdentI(name.to_owned())))
}

fn mem(name: &str) -> OpmrIL {
    OpmrIL::Location(Opmr::Id(name.to_owned()))
}

fn reg(n: u64) -> Opmr {
    Opmr::Reg(Register(n))
}

fn gen(code: Vec<ThreeAddressCode>) -> Result<Vec<TinyCode>, CodegenError> {
    let mut ctx = CodegenContext::new();
    TinyCodeSequence::try_from_function(code, &mut ctx).map(|s| s.sequence)
}

#[test]
fn left_operand_register_is_reused() {
    let (t1, t2) = (TempI(1), TempI(2));
    let code = vec![
        ThreeAddressCode::AddI { lhs: id("a"), rhs: id("b"), temp_result: t1 },
        ThreeAddressCode::AddI {
            lhs: BinaryExprOperandI::LValue(LValueI::Temp(t1)),
            rhs: id("c"),
            temp_result: t2,
        },
    ];
    assert_eq!(
        gen(code).unwrap(),
        vec![
            TinyCode::Move(OpmrL::Int(mem("a")), reg(0)),
            TinyCode::AddI(mem("b"), Register(0)),
            TinyCode::AddI(mem("c"), Register(0)),
        ]
    );
}

#[test]
fn memory_to_memory_store_goes_through_a_register() {
    let code = vec![ThreeAddressCode::StoreI {
        lhs: LValueI::Id(IdentI("x".to_owned())),
        rhs: id("y"),
    }];
    assert_eq!(
        gen(code).unwrap(),
        vec![
            TinyCode::Move(OpmrL::Int(mem("y")), reg(0)),
            TinyCode::Move(OpmrL::Int(OpmrIL::Location(reg(0))), Opmr::Id("x".to_owned())),
        ]
    );
}

#[test]
fn float_memory_to_memory_store_goes_through_a_register() {
    let code = vec![ThreeAddressCode::StoreF {
        lhs: LValueF::Id(IdentF("x".to_owned())),
        rhs: BinaryExprOperandF::LValue(LValueF::Id(IdentF("y".to_owned()))),
    }];
    assert_eq!(
        gen(code).unwrap(),
        vec![
            TinyCode::Move(OpmrL::Float(OpmrFL::Location(Opmr::Id("y".to_owned()))), reg(0)),
            TinyCode::Move(OpmrL::Float(OpmrFL::Location(reg(0))), Opmr::Id("x".to_owned())),
        ]
    );
}

#[test]
fn store_of_literal_into_temp_then_variable() {
    let t1 = TempI(1);
    let code = vec![
        ThreeAddressCode::StoreI { lhs: LValueI::Temp(t1), rhs: BinaryExprOperandI::RValue(4) },
        ThreeAddressCode::StoreI {
            lhs: LValueI::Id(IdentI("a".to_owned())),
            rhs: BinaryExprOperandI::LValue(LValueI::Temp(t1)),
        },
    ];
    assert_eq!(
        gen(code).unwrap(),
        vec![
            TinyCode::Move(OpmrL::Int(OpmrIL::Literal(4)), reg(0)),
            TinyCode::Move(OpmrL::Int(OpmrIL::Location(reg(0))), Opmr::Id("a".to_owned())),
        ]
    );
}

#[test]
fn comparison_puts_right_operand_in_register() {
    let t4 = TempI(4);
    let code = vec![
        ThreeAddressCode::StoreI { lhs: LValueI::Temp(t4), rhs: BinaryExprOperandI::RValue(10) },
        ThreeAddressCode::LteI {
            lhs: id("p"),
            rhs: BinaryExprOperandI::LValue(LValueI::Temp(t4)),
            label: three_addr_code_ir::Label(1),
        },
        ThreeAddressCode::GtI {
            lhs: BinaryExprOperandI::RValue(3),
            rhs: id("q"),
            label: three_addr_code_ir::Label(2),
        },
    ];
    assert_eq!(
        gen(code).unwrap(),
        vec![
            TinyCode::Move(OpmrL::Int(OpmrIL::Literal(10)), reg(0)),
            TinyCode::CmpI(mem("p"), Register(0)),
            TinyCode::Jle(Label(1)),
            TinyCode::Move(OpmrL::Int(mem("q")), reg(1)),
            TinyCode::CmpI(OpmrIL::Literal(3), Register(1)),
            TinyCode::Jgt(Label(2)),
        ]
    );
}

#[test]
fn float_arithmetic_uses_float_instructions() {
    let t1 = TempF(1);
    let half = FloatLit { bits: 0.5f64.to_bits() };
    let code = vec![ThreeAddressCode::MulF {
        lhs: BinaryExprOperandF::RValue(half),
        rhs: BinaryExprOperandF::LValue(LValueF::Id(IdentF("x".to_owned()))),
        temp_result: t1,
    }];
    assert_eq!(
        gen(code).unwrap(),
        vec![
            TinyCode::Move(OpmrL::Float(OpmrFL::Literal(half)), reg(0)),
            TinyCode::MulF(OpmrFL::Location(Opmr::Id("x".to_owned())), Register(0)),
        ]
    );
}

#[test]
fn labels_jumps_and_io_map_one_to_one() {
    let f = FunctionIdent(function::Symbol::new(
        "main".to_owned(),
        ReturnType::Void,
        vec![],
        vec![NumType::Int, NumType::Float],
    ));
    let code = vec![
        ThreeAddressCode::FunctionLabel(f.clone()),
        ThreeAddressCode::Link(f.clone()),
        ThreeAddressCode::Label(three_addr_code_ir::Label(5)),
        ThreeAddressCode::ReadI { identifier: IdentI("n".to_owned()) },
        ThreeAddressCode::WriteF { identifier: IdentF("r".to_owned()) },
        ThreeAddressCode::WriteS { identifier: IdentS("s".to_owned()) },
        ThreeAddressCode::Jump(three_addr_code_ir::Label(5)),
        ThreeAddressCode::Jsr(f),
        ThreeAddressCode::Unlink,
        ThreeAddressCode::Ret,
    ];
    assert_eq!(
        gen(code).unwrap(),
        vec![
            TinyCode::FunctionLabel("main".to_owned()),
            TinyCode::Link(Some(2)),
            TinyCode::Label(Label(5)),
            TinyCode::ReadI(Opmr::Id("n".to_owned())),
            TinyCode::WriteF(Opmr::Id("r".to_owned())),
            TinyCode::WriteS("s".to_owned()),
            TinyCode::Jmp(Label(5)),
            TinyCode::Jsr("main".to_owned()),
            TinyCode::Unlink,
            TinyCode::Ret,
        ]
    );
}

#[test]
fn reading_an_unwritten_temp_is_an_error() {
    let code = vec![ThreeAddressCode::AddI {
        lhs: BinaryExprOperandI::LValue(LValueI::Temp(TempI(7))),
        rhs: BinaryExprOperandI::RValue(1),
        temp_result: TempI(8),
    }];
    assert_eq!(gen(code), Err(CodegenError::UndefinedTemp(7)));
}

#[test]
fn register_file_is_bounded() {
    let store = |n: u64| ThreeAddressCode::StoreI {
        lhs: LValueI::Temp(TempI(n)),
        rhs: BinaryExprOperandI::RValue(n as i32),
    };
    let fits: Vec<ThreeAddressCode> = (0..MAX_REGISTERS).map(store).collect();
    assert_eq!(gen(fits).unwrap().len(), 200);
    let too_many: Vec<ThreeAddressCode> = (0..MAX_REGISTERS + 1).map(store).collect();
    assert_eq!(gen(too_many), Err(CodegenError::OutOfRegisters));
}

#[test]
fn registers_start_afresh_for_each_function() {
    let mut ctx = CodegenContext::new();
    let f = vec![ThreeAddressCode::StoreI {
        lhs: LValueI::Temp(TempI(1)),
        rhs: BinaryExprOperandI::RValue(1),
    }];
    let first = TinyCodeSequence::from_function(f.clone(), &mut ctx);
    let second = TinyCodeSequence::from_function(f, &mut ctx);
    assert_eq!(first, second);
    assert_eq!(second.sequence, vec![TinyCode::Move(OpmrL::Int(OpmrIL::Literal(1)), reg(0))]);
}

#[test]
fn register_new_counts_up() {
    let mut ctx = CodegenContext::new();
    assert_eq!(Register::new(&mut ctx), Register(0));
    assert_eq!(Register::new(&mut ctx), Register(1));
    ctx.reset();
    assert_eq!(Register::new(&mut ctx), Register(0));
}

#[test]
fn temp_store_reuses_its_register() {
    let t = TempI(1);
    let code = vec![
        ThreeAddressCode::StoreI { lhs: LValueI::Temp(t), rhs: BinaryExprOperandI::RValue(1) },
        ThreeAddressCode::StoreI { lhs: LValueI::Temp(t), rhs: BinaryExprOperandI::RValue(2) },
        ThreeAddressCode::PushI(BinaryExprOperandI::LValue(LValueI::Temp(t))),
        ThreeAddressCode::PopI(LValueI::Temp(TempI(2))),
    ];
    assert_eq!(
        gen(code).unwrap(),
        vec![
            TinyCode::Move(OpmrL::Int(OpmrIL::Literal(1)), reg(0)),
            TinyCode::Move(OpmrL::Int(OpmrIL::Literal(2)), reg(0)),
            TinyCode::Push(Some(OpmrL::Int(OpmrIL::Location(reg(0))))),
            TinyCode::Pop(Some(reg(1))),
        ]
    );
}

#[test]
fn program_declares_globals_and_halts() {
    let symbols = vec![
        NonFunctionScopedSymbol::Int { name: "a".to_owned() },
        NonFunctionScopedSymbol::String { name: "s".to_owned(), value: "\"hi\"".to_owned() },
        NonFunctionScopedSymbol::Float { name: "x".to_owned() },
    ];
    let functions = vec![
        vec![ThreeAddressCode::StoreI { lhs: LValueI::Temp(TempI(1)), rhs: BinaryExprOperandI::RValue(4) }],
        vec![ThreeAddressCode::WriteI { identifier: IdentI("a".to_owned()) }],
    ];
    let mut ctx = CodegenContext::new();
    let program = TinyCodeSequence::from_program(&symbols, functions, &mut ctx);
    assert_eq!(
        program.sequence,
        vec![
            TinyCode::Var("a".to_owned()),
            TinyCode::Str(Sid { id: "s".to_owned(), value: "\"hi\"".to_owned() }),
            TinyCode::Var("x".to_owned()),
            TinyCode::Move(OpmrL::Int(OpmrIL::Literal(4)), reg(0)),
            TinyCode::WriteI(Opmr::Id("a".to_owned())),
            TinyCode::Halt,
        ]
    );
}

#[test]
fn check_tells_why_an_instruction_cannot_be_lowered() {
    let mut ctx = CodegenContext::new();
    let read_unwritten = ThreeAddressCode::PushI(BinaryExprOperandI::LValue(LValueI::Temp(TempI(3))));
    assert_eq!(ctx.check(&read_unwritten), Err(CodegenError::UndefinedTemp(3)));
    let store = ThreeAddressCode::StoreI { lhs: LValueI::Temp(TempI(3)), rhs: BinaryExprOperandI::RValue(1) };
    assert_eq!(ctx.check(&store), Ok(()));
    ctx.lower(store);
    assert_eq!(ctx.check(&read_unwritten), Ok(()));
    for _ in 1..MAX_REGISTERS {
        Register::new(&mut ctx);
    }
    let copy = ThreeAddressCode::StoreI {
        lhs: LValueI::Id(IdentI("x".to_owned())),
        rhs: id("y"),
    };
    assert_eq!(ctx.check(&copy), Err(CodegenError::OutOfRegisters));
    assert_eq!(ctx.check(&read_unwritten), Ok(()));
}
