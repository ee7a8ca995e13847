use std::collections::HashSet;

use microc::cfg::basic_block::{BBFunction, BBLabel};
use microc::cfg::liveness::{LivenessDecoratedControlFlowGraph};
use microc::cfg::{CfgError, ControlFlowGraph};
use microc::symbol_table::symbol::data::NonFunctionScopedSymbol;
use microc::symbol_table::symbol::function::{self, ReturnType};
use microc::three_addr_code_ir::three_address_code::ThreeAddressCode::{
    AddF, DivF, EqI, FunctionLabel, Jump, Label, Link, LteI, MulF, MulI, StoreF, StoreI, SubI,
    WriteF, WriteI,
};
use microc::three_addr_code_ir::three_address_code::ThreeAddressCode;
use microc::three_addr_code_ir::{
    self, BinaryExprOperandF, BinaryExprOperandI, FloatLit, FunctionIdent, IdentF, IdentI, LValue,
    LValueF, LValueI, TempF, TempI,
};

fn main_ident() -> FunctionIdent {
    FunctionIdent(function::Symbol::new("main".to_owned(), ReturnType::Void, vec![], vec![]))
}

fn int_id(name: &str) -> IdentI {
    IdentI(name.to_owned())
}

fn float_id(name: &str) -> IdentF {
    IdentF(name.to_owned())
}

fn lit(x: f64) -> FloatLit {
    FloatLit { bits: x.to_bits() }
}

fn build(code: Vec<ThreeAddressCode>) -> ControlFlowGraph {
    ControlFlowGraph::from_code(code)
}

fn check_blocks(cfg: &ControlFlowGraph, expected: &Vec<Vec<ThreeAddressCode>>) {
    let bbs = cfg.basic_blocks();
    assert_eq!(bbs.len(), expected.len());
    for (k, bb) in bbs.iter().enumerate() {
        assert_eq!(bb.label(), BBLabel(k as u64));
        assert_eq!(bb.seq(), &expected[k]);
    }
}

/// The blocks of the program
/// `a := 4; b := 2; p := a*b; IF (p > 10) i := 42; ELSE i := 24; FI WRITE (i);`
fn if_else_blocks() -> Vec<Vec<ThreeAddressCode>> {
    let a = int_id("a");
    let b = int_id("b");
    let p = int_id("p");
    let i = int_id("i");
    let main = main_ident();
    let (t1, t2, t3, t4, t5, t6) = (TempI(1), TempI(2), TempI(3), TempI(4), TempI(5), TempI(6));
    let (tac_label1, tac_label2) = (three_addr_code_ir::Label(1), three_addr_code_ir::Label(2));
    vec![
        vec![
            FunctionLabel(main.clone()),
            Link(main),
            StoreI { lhs: LValueI::Temp(t1), rhs: BinaryExprOperandI::RValue(4) },
            StoreI {
                lhs: LValueI::Id(a.clone()),
                rhs: BinaryExprOperandI::LValue(LValueI::Temp(t1)),
            },
            StoreI { lhs: LValueI::Temp(t2), rhs: BinaryExprOperandI::RValue(2) },
            StoreI {
                lhs: LValueI::Id(b.clone()),
                rhs: BinaryExprOperandI::LValue(LValueI::Temp(t2)),
            },
            MulI {
                lhs: BinaryExprOperandI::LValue(LValueI::Id(a.clone())),
                rhs: BinaryExprOperandI::LValue(LValueI::Id(b.clone())),
                temp_result: t3,
            },
            StoreI {
                lhs: LValueI::Id(p.clone()),
                rhs: BinaryExprOperandI::LValue(LValueI::Temp(t3)),
            },
            StoreI { lhs: LValueI::Temp(t4), rhs: BinaryExprOperandI::RValue(10) },
            LteI {
                lhs: BinaryExprOperandI::LValue(LValueI::Id(p.clone())),
                rhs: BinaryExprOperandI::LValue(LValueI::Temp(t4)),
                label: tac_label1,
            },
        ],
        vec![
            StoreI { lhs: LValueI::Temp(t5), rhs: BinaryExprOperandI::RValue(42) },
            StoreI {
                lhs: LValueI::Id(i.clone()),
                rhs: BinaryExprOperandI::LValue(LValueI::Temp(t5)),
            },
            Jump(tac_label2),
        ],
        vec![
            Label(tac_label1),
            StoreI { lhs: LValueI::Temp(t6), rhs: BinaryExprOperandI::RValue(24) },
            StoreI {
                lhs: LValueI::Id(i.clone()),
                rhs: BinaryExprOperandI::LValue(LValueI::Temp(t6)),
            },
            Jump(tac_label2),
        ],
        vec![Label(tac_label2), WriteI { identifier: i }],
    ]
}

/// The blocks of the program
/// `num := 7.0; j := 1; approx := num;
///  FOR (i := 100; i != 0; i := i-1) newapprox := 0.5*(approx + num/approx); approx := newapprox; ROF
///  WRITE(approx);`
fn loop_blocks() -> Vec<Vec<ThreeAddressCode>> {
    let i = int_id("i");
    let j = int_id("j");
    let newapprox = float_id("newapprox");
    let approx = float_id("approx");
    let num = float_id("num");
    let main = main_ident();
    let (t1, t2, t3, t4, t5, t6, t7, t8, t9, t10) = (
        TempF(1),
        TempI(2),
        TempI(3),
        TempI(4),
        TempI(5),
        TempI(6),
        TempF(7),
        TempF(8),
        TempF(9),
        TempF(10),
    );
    let (tac_label1, tac_label2, tac_label3) = (
        three_addr_code_ir::Label(1),
        three_addr_code_ir::Label(2),
        three_addr_code_ir::Label(3),
    );
    vec![
        vec![
            FunctionLabel(main.clone()),
            Link(main),
            StoreF { lhs: LValueF::Temp(t1), rhs: BinaryExprOperandF::RValue(lit(7.0)) },
            StoreF {
                lhs: LValueF::Id(num.clone()),
                rhs: BinaryExprOperandF::LValue(LValueF::Temp(t1)),
            },
            StoreI { lhs: LValueI::Temp(t2), rhs: BinaryExprOperandI::RValue(1) },
            StoreI {
                lhs: LValueI::Id(j.clone()),
                rhs: BinaryExprOperandI::LValue(LValueI::Temp(t2)),
            },
            StoreF {
                lhs: LValueF::Id(approx.clone()),
                rhs: BinaryExprOperandF::LValue(LValueF::Id(num.clone())),
            },
            StoreI { lhs: LValueI::Temp(t3), rhs: BinaryExprOperandI::RValue(100) },
            StoreI {
                lhs: LValueI::Id(i.clone()),
                rhs: BinaryExprOperandI::LValue(LValueI::Temp(t3)),
            },
        ],
        vec![
            Label(tac_label1),
            StoreI { lhs: LValueI::Temp(t4), rhs: BinaryExprOperandI::RValue(0) },
            EqI {
                lhs: BinaryExprOperandI::LValue(LValueI::Id(i.clone())),
                rhs: BinaryExprOperandI::LValue(LValueI::Temp(t4)),
                label: tac_label2,
            },
        ],
        vec![
            StoreF { lhs: LValueF::Temp(t7), rhs: BinaryExprOperandF::RValue(lit(0.5)) },
            DivF {
                lhs: BinaryExprOperandF::LValue(LValueF::Id(num.clone())),
                rhs: BinaryExprOperandF::LValue(LValueF::Id(approx.clone())),
                temp_result: t8,
            },
            AddF {
                lhs: BinaryExprOperandF::LValue(LValueF::Id(approx.clone())),
                rhs: BinaryExprOperandF::LValue(LValueF::Temp(t8)),
                temp_result: t9,
            },
            MulF {
                lhs: BinaryExprOperandF::LValue(LValueF::Temp(t7)),
                rhs: BinaryExprOperandF::LValue(LValueF::Temp(t9)),
                temp_result: t10,
            },
            StoreF {
                lhs: LValueF::Id(newapprox.clone()),
                rhs: BinaryExprOperandF::LValue(LValueF::Temp(t10)),
            },
            StoreF {
                lhs: LValueF::Id(approx.clone()),
                rhs: BinaryExprOperandF::LValue(LValueF::Id(newapprox.clone())),
            },
        ],
        vec![
            Label(tac_label3),
            StoreI { lhs: LValueI::Temp(t5), rhs: BinaryExprOperandI::RValue(1) },
            SubI {
                lhs: BinaryExprOperandI::LValue(LValueI::Id(i.clone())),
                rhs: BinaryExprOperandI::LValue(LValueI::Temp(t5)),
                temp_result: t6,
            },
            StoreI {
                lhs: LValueI::Id(i.clone()),
                rhs: BinaryExprOperandI::LValue(LValueI::Temp(t6)),
            },
            Jump(tac_label1),
        ],
        vec![Label(tac_label2), WriteF { identifier: approx }],
    ]
}

#[test]
fn bb_function_to_cfg() {
    let expected = if_else_blocks();
    let cfg = build(expected.concat());
    check_blocks(&cfg, &expected);
    assert_eq!(
        cfg.basic_block_map(),
        vec![
            (BBLabel(0), vec![BBLabel(2), BBLabel(1)]),
            (BBLabel(1), vec![BBLabel(3)]),
            (BBLabel(2), vec![BBLabel(3)]),
        ]
    );
}

#[test]
fn bb_function_with_loops_to_cfg() {
    let expected = loop_blocks();
    let cfg = build(expected.concat());
    check_blocks(&cfg, &expected);
    assert_eq!(
        cfg.basic_block_map(),
        vec![
            (BBLabel(0), vec![BBLabel(1)]),
            (BBLabel(1), vec![BBLabel(4), BBLabel(2)]),
            (BBLabel(2), vec![BBLabel(3)]),
            (BBLabel(3), vec![BBLabel(1)]),
        ]
    );
}

#[test]
fn blocks_concatenate_to_the_code() {
    let code = loop_blocks().concat();
    let f = BBFunction::from_code(code.clone());
    let (bbs, _) = f.into_parts();
    let joined: Vec<ThreeAddressCode> = bbs.iter().flat_map(|b| b.seq().clone()).collect();
    assert_eq!(joined, code);
    assert!(bbs.iter().all(|b| !b.seq().is_empty()));
}

#[test]
fn empty_code_has_no_blocks() {
    let cfg = build(vec![]);
    assert!(cfg.basic_blocks().is_empty());
    assert!(cfg.basic_block_map().is_empty());
}

#[test]
fn label_after_jump_starts_its_own_block() {
    let l1 = three_addr_code_ir::Label(1);
    let l2 = three_addr_code_ir::Label(2);
    let code = vec![Jump(l1), Label(l2), Label(l1), ThreeAddressCode::Ret];
    let cfg = build(code);
    assert_eq!(cfg.basic_blocks().len(), 3);
    assert_eq!(cfg.basic_blocks()[1].seq(), &vec![Label(l2)]);
    assert_eq!(
        cfg.basic_block_map(),
        vec![(BBLabel(0), vec![BBLabel(2)]), (BBLabel(1), vec![BBLabel(2)])]
    );
}

#[test]
fn jump_to_missing_label_is_refused() {
    let code = vec![Jump(three_addr_code_ir::Label(9))];
    let r = ControlFlowGraph::try_from_bb_function(BBFunction::from_code(code));
    assert_eq!(r.err(), Some(CfgError::UnresolvedJumpTarget(9)));
}

#[test]
fn branch_to_missing_label_is_refused() {
    let code = vec![
        Label(three_addr_code_ir::Label(1)),
        EqI {
            lhs: BinaryExprOperandI::RValue(0),
            rhs: BinaryExprOperandI::RValue(0),
            label: three_addr_code_ir::Label(4),
        },
        Jump(three_addr_code_ir::Label(1)),
    ];
    assert_eq!(ControlFlowGraph::try_from_code(code).err(), Some(CfgError::UnresolvedJumpTarget(4)));
}

#[test]
fn resolved_code_builds_with_either_constructor() {
    let code = if_else_blocks().concat();
    let checked = ControlFlowGraph::try_from_code(code.clone()).unwrap();
    let direct = ControlFlowGraph::from_code(code);
    assert_eq!(checked.basic_block_map(), direct.basic_block_map());
    assert_eq!(checked.basic_blocks(), direct.basic_blocks());
}

#[test]
fn every_edge_names_a_block() {
    for blocks in [if_else_blocks(), loop_blocks()] {
        let cfg = build(blocks.concat());
        let n = cfg.basic_blocks().len() as u64;
        for (from, to) in cfg.basic_block_map() {
            assert!(from.0 < n);
            assert!(to.iter().all(|b| b.0 < n));
        }
    }
}

fn symbols() -> Vec<NonFunctionScopedSymbol> {
    vec![
        NonFunctionScopedSymbol::Int { name: "i".to_owned() },
        NonFunctionScopedSymbol::Int { name: "j".to_owned() },
        NonFunctionScopedSymbol::Float { name: "newapprox".to_owned() },
        NonFunctionScopedSymbol::Float { name: "approx".to_owned() },
        NonFunctionScopedSymbol::Float { name: "num".to_owned() },
    ]
}

fn in_set(g: &LivenessDecoratedControlFlowGraph, b: usize, i: usize) -> HashSet<LValue> {
    g.basic_blocks()[b].seq()[i].in_set().iter().cloned().collect()
}

#[test]
fn loop_header_is_live_across_back_edge() {
    let cfg = build(loop_blocks().concat());
    let mut g = LivenessDecoratedControlFlowGraph::from_cfg(cfg, &symbols());
    g.update_in_and_out_sets();
    let header = in_set(&g, 1, 0);
    assert!(header.contains(&LValue::LValueI(LValueI::Id(int_id("i")))));
    assert!(header.contains(&LValue::LValueF(LValueF::Id(float_id("num")))));
    assert!(header.contains(&LValue::LValueF(LValueF::Id(float_id("approx")))));
    assert!(!header.contains(&LValue::LValueF(LValueF::Id(float_id("newapprox")))));
    assert!(!header.contains(&LValue::LValueI(LValueI::Id(int_id("j")))));
    // The loop body reads `approx` before it writes it, so it is live on
    // entry to the body as well.
    let body = in_set(&g, 2, 0);
    assert!(body.contains(&LValue::LValueF(LValueF::Id(float_id("approx")))));
    // Nothing is live on entry to the function but what it reads first.
    assert!(in_set(&g, 0, 0).is_empty());
}

#[test]
fn liveness_is_idempotent() {
    let cfg = build(loop_blocks().concat());
    let mut g = LivenessDecoratedControlFlowGraph::from_cfg(cfg, &symbols());
    g.update_in_and_out_sets();
    let snapshot = |g: &LivenessDecoratedControlFlowGraph| -> Vec<(HashSet<LValue>, HashSet<LValue>)> {
        g.basic_blocks()
            .iter()
            .flat_map(|b| {
                b.seq()
                    .iter()
                    .map(|c| {
                        (
                            c.in_set().iter().cloned().collect(),
                            c.out_set().iter().cloned().collect(),
                        )
                    })
                    .collect::<Vec<_>>()
            })
            .collect()
    };
    let first = snapshot(&g);
    g.update_in_and_out_sets();
    assert_eq!(first, snapshot(&g));
}

#[test]
fn if_else_liveness() {
    let cfg = build(if_else_blocks().concat());
    let syms = vec![
        NonFunctionScopedSymbol::Int { name: "a".to_owned() },
        NonFunctionScopedSymbol::Int { name: "b".to_owned() },
        NonFunctionScopedSymbol::Int { name: "i".to_owned() },
        NonFunctionScopedSymbol::Int { name: "p".to_owned() },
    ];
    let mut g = LivenessDecoratedControlFlowGraph::from_cfg(cfg, &syms);
    g.update_in_and_out_sets();
    let i = LValue::LValueI(LValueI::Id(int_id("i")));
    // `i` is written on both branches and read in the merge block.
    assert_eq!(in_set(&g, 3, 0), [i.clone()].into_iter().collect());
    assert!(!in_set(&g, 1, 0).contains(&i));
    let out_last: HashSet<LValue> =
        g.basic_blocks()[1].seq()[2].out_set().iter().cloned().collect();
    assert!(out_last.contains(&i));
    assert_eq!(g.basic_block_map().len(), 3);
    assert!(g.basic_block_for_label(BBLabel(4)).is_none());
}

#[test]
fn liveness_is_the_least_solution_on_a_loop() {
    let l1 = three_addr_code_ir::Label(1);
    let x = int_id("x");
    let code = vec![Label(l1), WriteI { identifier: x.clone() }, Jump(l1)];
    let cfg = build(code);
    let syms = vec![
        NonFunctionScopedSymbol::Int { name: "x".to_owned() },
        NonFunctionScopedSymbol::Int { name: "z".to_owned() },
    ];
    let mut g = LivenessDecoratedControlFlowGraph::from_cfg(cfg, &syms);
    g.update_in_and_out_sets();
    let only_x: HashSet<LValue> = [LValue::LValueI(LValueI::Id(x))].into_iter().collect();
    for i in 0..3 {
        assert_eq!(in_set(&g, 0, i), only_x);
    }
}
