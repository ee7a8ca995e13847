//! Liveness analysis: GEN and KILL sets of each instruction, and IN and
//! OUT sets computed by a backward dataflow over the control-flow graph.
use vstd::prelude::*;

use linked_hash_map::LinkedHashMap;

use crate::cfg::basic_block::{block_seqs, BBLabel, ImmutableBasicBlock};
use crate::cfg::{
    edge_entries, edge_list, edge_map_get, keys_unique, labelled_edges, lemma_lookup_absent,
    lemma_lookup_entry, lookup, no_dangling_edges, ControlFlowGraph,
};
use crate::symbol_table::symbol::data::NonFunctionScopedSymbol;
use crate::three_addr_code_ir::three_address_code::ThreeAddressCode;
use crate::three_addr_code_ir::{
    BinaryExprOperandF, BinaryExprOperandI, IdentF, IdentI, LValue, LValueF, LValueI, Loc,
};

verus! {

/// The locations that a vector of locations holds.
pub open spec fn loc_set(v: Seq<LValue>) -> Set<Loc> {
    Set::new(|l: Loc| exists|i: int| 0 <= i < v.len() && (#[trigger] v[i])@ == l)
}

pub proof fn lemma_loc_set_finite(v: Seq<LValue>)
    ensures
        loc_set(v).finite(),
    decreases v.len(),
{
    if v.len() == 0 {
        assert(loc_set(v) =~= Set::<Loc>::empty());
    } else {
        let d = v.drop_last();
        lemma_loc_set_finite(d);
        assert(loc_set(v) =~= loc_set(d).insert(v.last()@)) by {
            assert forall|l: Loc| loc_set(v).contains(l) implies loc_set(d).insert(
                v.last()@,
            ).contains(l) by {
                let i = choose|i: int| 0 <= i < v.len() && (#[trigger] v[i])@ == l;
                if i < d.len() {
                    assert(d[i] == v[i]);
                }
            }
            assert forall|l: Loc| loc_set(d).insert(v.last()@).contains(l) implies loc_set(
                v,
            ).contains(l) by {
                if l != v.last()@ {
                    let i = choose|i: int| 0 <= i < d.len() && (#[trigger] d[i])@ == l;
                    assert(v[i] == d[i]);
                } else {
                    assert(v[v.len() - 1]@ == l);
                }
            }
        }
    }
}

/// Whether the vector holds the location.
pub fn set_contains(v: &Vec<LValue>, x: &LValue) -> (r: bool)
    ensures
        r == loc_set(v@).contains(x@),
{
    let mut i: usize = 0;
    while i < v.len()
        invariant
            0 <= i <= v.len(),
            forall|j: int| 0 <= j < i ==> (#[trigger] v@[j])@ != x@,
        decreases v.len() - i,
    {
        if v[i].same(x) {
            assert(v@[i as int]@ == x@);
            return true;
        }
        i = i + 1;
    }
    false
}

/// Adds to `dst` the locations of `src` that it does not hold yet.
pub fn union_into(dst: &mut Vec<LValue>, src: &Vec<LValue>)
    ensures
        loc_set(final(dst)@) == loc_set(old(dst)@).union(loc_set(src@)),
{
    let ghost start = dst@;
    let mut i: usize = 0;
    while i < src.len()
        invariant
            0 <= i <= src.len(),
            loc_set(dst@) == loc_set(start).union(loc_set(src@.take(i as int))),
        decreases src.len() - i,
    {
        let ghost before = dst@;
        if !set_contains(dst, &src[i]) {
            dst.push(src[i].clone());
        }
        proof {
            let t = src@.take(i as int + 1);
            assert(loc_set(t) =~= loc_set(src@.take(i as int)).insert(src@[i as int]@)) by {
                assert forall|l: Loc| #[trigger] loc_set(t).contains(l) implies loc_set(
                    src@.take(i as int),
                ).insert(src@[i as int]@).contains(l) by {
                    let j = choose|j: int| 0 <= j < t.len() && (#[trigger] t[j])@ == l;
                    if j < i {
                        assert(src@.take(i as int)[j] == t[j]);
                    }
                }
                assert forall|l: Loc|
                    #[trigger] loc_set(src@.take(i as int)).insert(src@[i as int]@).contains(
                        l,
                    ) implies loc_set(t).contains(l) by {
                    if l == src@[i as int]@ {
                        assert(t[i as int] == src@[i as int]);
                    } else {
                        let j = choose|j: int|
                            0 <= j < i && (#[trigger] src@.take(i as int)[j])@ == l;
                        assert(t[j] == src@.take(i as int)[j]);
                    }
                }
            }
            assert(loc_set(dst@) =~= loc_set(before).insert(src@[i as int]@)) by {
                assert forall|l: Loc| #[trigger] loc_set(dst@).contains(l) implies loc_set(
                    before,
                ).insert(src@[i as int]@).contains(l) by {
                    let j = choose|j: int| 0 <= j < dst@.len() && (#[trigger] dst@[j])@ == l;
                    if j < before.len() {
                        assert(before[j] == dst@[j]);
                    }
                }
                assert forall|l: Loc|
                    #[trigger] loc_set(before).insert(src@[i as int]@).contains(l) implies loc_set(
                        dst@,
                    ).contains(l) by {
                    if l != src@[i as int]@ {
                        let j = choose|j: int| 0 <= j < before.len() && (#[trigger] before[j])@ == l;
                        assert(dst@[j] == before[j]);
                    } else if dst@.len() > before.len() {
                        assert(dst@[before.len() as int] == src@[i as int]);
                    }
                }
            }
        }
        i = i + 1;
    }
    assert(src@.take(src.len() as int) =~= src@);
}

/// The locations of `a` that `b` does not hold.
pub fn set_minus(a: &Vec<LValue>, b: &Vec<LValue>) -> (r: Vec<LValue>)
    ensures
        loc_set(r@) == loc_set(a@).difference(loc_set(b@)),
{
    let mut r: Vec<LValue> = Vec::new();
    let mut i: usize = 0;
    while i < a.len()
        invariant
            0 <= i <= a.len(),
            loc_set(r@) == loc_set(a@.take(i as int)).difference(loc_set(b@)),
        decreases a.len() - i,
    {
        let ghost before = r@;
        if !set_contains(b, &a[i]) {
            r.push(a[i].clone());
        }
        proof {
            let t = a@.take(i as int + 1);
            assert(loc_set(r@) =~= loc_set(t).difference(loc_set(b@))) by {
                assert forall|l: Loc| #[trigger] loc_set(r@).contains(l) implies loc_set(
                    t,
                ).difference(loc_set(b@)).contains(l) by {
                    let j = choose|j: int| 0 <= j < r@.len() && (#[trigger] r@[j])@ == l;
                    if j < before.len() {
                        assert(before[j] == r@[j]);
                        assert(loc_set(before).contains(l));
                        let k = choose|k: int|
                            0 <= k < i && (#[trigger] a@.take(i as int)[k])@ == l;
                        assert(t[k] == a@.take(i as int)[k]);
                    } else {
                        assert(t[i as int] == a@[i as int]);
                    }
                }
                assert forall|l: Loc| #[trigger] loc_set(t).difference(loc_set(b@)).contains(
                    l,
                ) implies loc_set(r@).contains(l) by {
                    let k = choose|k: int| 0 <= k < t.len() && (#[trigger] t[k])@ == l;
                    if k < i {
                        assert(a@.take(i as int)[k] == t[k]);
                        assert(loc_set(a@.take(i as int)).contains(l));
                        assert(loc_set(before).contains(l));
                        let j = choose|j: int| 0 <= j < before.len() && (#[trigger] before[j])@ == l;
                        assert(r@[j] == before[j]);
                    } else {
                        assert(r@[before.len() as int] == a@[i as int]);
                    }
                }
            }
        }
        i = i + 1;
    }
    assert(a@.take(a.len() as int) =~= a@);
    r
}

/// Whether every location of `a` is in `b`.
pub fn set_subset(a: &Vec<LValue>, b: &Vec<LValue>) -> (r: bool)
    ensures
        r == loc_set(a@).subset_of(loc_set(b@)),
{
    let mut i: usize = 0;
    while i < a.len()
        invariant
            0 <= i <= a.len(),
            forall|j: int| 0 <= j < i ==> loc_set(b@).contains((#[trigger] a@[j])@),
        decreases a.len() - i,
    {
        if !set_contains(b, &a[i]) {
            assert(loc_set(a@).contains(a@[i as int]@));
            return false;
        }
        i = i + 1;
    }
    true
}

/// Whether `a` and `b` hold the same locations.
pub fn set_equal(a: &Vec<LValue>, b: &Vec<LValue>) -> (r: bool)
    ensures
        r == (loc_set(a@) == loc_set(b@)),
{
    let ab = set_subset(a, b);
    let ba = set_subset(b, a);
    proof {
        if ab && ba {
            assert(loc_set(a@) =~= loc_set(b@));
        }
    }
    ab && ba
}


pub proof fn lemma_loc_set_push(v: Seq<LValue>, x: LValue)
    ensures
        loc_set(v.push(x)) == loc_set(v).insert(x@),
{
    let w = v.push(x);
    assert(loc_set(w) =~= loc_set(v).insert(x@)) by {
        assert forall|l: Loc| #[trigger] loc_set(w).contains(l) implies loc_set(v).insert(
            x@,
        ).contains(l) by {
            let i = choose|i: int| 0 <= i < w.len() && (#[trigger] w[i])@ == l;
            if i < v.len() {
                assert(v[i] == w[i]);
            }
        }
        assert forall|l: Loc| #[trigger] loc_set(v).insert(x@).contains(l) implies loc_set(
            w,
        ).contains(l) by {
            if l == x@ {
                assert(w[v.len() as int] == x);
            } else {
                let i = choose|i: int| 0 <= i < v.len() && (#[trigger] v[i])@ == l;
                assert(w[i] == v[i]);
            }
        }
    }
}

/// The location that an int operand reads, if it reads one.
pub open spec fn operand_i_locs(o: BinaryExprOperandI) -> Set<Loc> {
    match o {
        BinaryExprOperandI::LValue(l) => set![l@],
        BinaryExprOperandI::RValue(_) => Set::empty(),
    }
}

/// The location that a float operand reads, if it reads one.
pub open spec fn operand_f_locs(o: BinaryExprOperandF) -> Set<Loc> {
    match o {
        BinaryExprOperandF::LValue(l) => set![l@],
        BinaryExprOperandF::RValue(_) => Set::empty(),
    }
}

/// GEN: the locations that the instruction reads before it writes any.
/// A call may read every global variable.
pub open spec fn gen_of(tac: ThreeAddressCode, globals: Set<Loc>) -> Set<Loc> {
    match tac {
        ThreeAddressCode::AddI { lhs, rhs, .. } => operand_i_locs(lhs).union(operand_i_locs(rhs)),
        ThreeAddressCode::SubI { lhs, rhs, .. } => operand_i_locs(lhs).union(operand_i_locs(rhs)),
        ThreeAddressCode::MulI { lhs, rhs, .. } => operand_i_locs(lhs).union(operand_i_locs(rhs)),
        ThreeAddressCode::DivI { lhs, rhs, .. } => operand_i_locs(lhs).union(operand_i_locs(rhs)),
        ThreeAddressCode::AddF { lhs, rhs, .. } => operand_f_locs(lhs).union(operand_f_locs(rhs)),
        ThreeAddressCode::SubF { lhs, rhs, .. } => operand_f_locs(lhs).union(operand_f_locs(rhs)),
        ThreeAddressCode::MulF { lhs, rhs, .. } => operand_f_locs(lhs).union(operand_f_locs(rhs)),
        ThreeAddressCode::DivF { lhs, rhs, .. } => operand_f_locs(lhs).union(operand_f_locs(rhs)),
        ThreeAddressCode::GtI { lhs, rhs, .. } => operand_i_locs(lhs).union(operand_i_locs(rhs)),
        ThreeAddressCode::LtI { lhs, rhs, .. } => operand_i_locs(lhs).union(operand_i_locs(rhs)),
        ThreeAddressCode::GteI { lhs, rhs, .. } => operand_i_locs(lhs).union(operand_i_locs(rhs)),
        ThreeAddressCode::LteI { lhs, rhs, .. } => operand_i_locs(lhs).union(operand_i_locs(rhs)),
        ThreeAddressCode::NeI { lhs, rhs, .. } => operand_i_locs(lhs).union(operand_i_locs(rhs)),
        ThreeAddressCode::EqI { lhs, rhs, .. } => operand_i_locs(lhs).union(operand_i_locs(rhs)),
        ThreeAddressCode::GtF { lhs, rhs, .. } => operand_f_locs(lhs).union(operand_f_locs(rhs)),
        ThreeAddressCode::LtF { lhs, rhs, .. } => operand_f_locs(lhs).union(operand_f_locs(rhs)),
        ThreeAddressCode::GteF { lhs, rhs, .. } => operand_f_locs(lhs).union(operand_f_locs(rhs)),
        ThreeAddressCode::LteF { lhs, rhs, .. } => operand_f_locs(lhs).union(operand_f_locs(rhs)),
        ThreeAddressCode::NeF { lhs, rhs, .. } => operand_f_locs(lhs).union(operand_f_locs(rhs)),
        ThreeAddressCode::EqF { lhs, rhs, .. } => operand_f_locs(lhs).union(operand_f_locs(rhs)),
        ThreeAddressCode::StoreI { rhs, .. } => operand_i_locs(rhs),
        ThreeAddressCode::StoreF { rhs, .. } => operand_f_locs(rhs),
        ThreeAddressCode::WriteI { identifier } => set![Loc::IdentI(identifier.0@)],
        ThreeAddressCode::WriteF { identifier } => set![Loc::IdentF(identifier.0@)],
        ThreeAddressCode::PushI(o) => operand_i_locs(o),
        ThreeAddressCode::PushF(o) => operand_f_locs(o),
        ThreeAddressCode::Jsr(_) => globals,
        _ => Set::empty(),
    }
}

/// KILL: the locations that the instruction writes.
pub open spec fn kill_of(tac: ThreeAddressCode) -> Set<Loc> {
    match tac {
        ThreeAddressCode::AddI { temp_result, .. } => set![Loc::TempI(temp_result.0)],
        ThreeAddressCode::SubI { temp_result, .. } => set![Loc::TempI(temp_result.0)],
        ThreeAddressCode::MulI { temp_result, .. } => set![Loc::TempI(temp_result.0)],
        ThreeAddressCode::DivI { temp_result, .. } => set![Loc::TempI(temp_result.0)],
        ThreeAddressCode::AddF { temp_result, .. } => set![Loc::TempF(temp_result.0)],
        ThreeAddressCode::SubF { temp_result, .. } => set![Loc::TempF(temp_result.0)],
        ThreeAddressCode::MulF { temp_result, .. } => set![Loc::TempF(temp_result.0)],
        ThreeAddressCode::DivF { temp_result, .. } => set![Loc::TempF(temp_result.0)],
        ThreeAddressCode::StoreI { lhs, .. } => set![lhs@],
        ThreeAddressCode::StoreF { lhs, .. } => set![lhs@],
        ThreeAddressCode::ReadI { identifier } => set![Loc::IdentI(identifier.0@)],
        ThreeAddressCode::ReadF { identifier } => set![Loc::IdentF(identifier.0@)],
        ThreeAddressCode::PopI(l) => set![l@],
        ThreeAddressCode::PopF(l) => set![l@],
        _ => Set::empty(),
    }
}

/// What is live after the instruction whatever follows it: after a
/// return, every global variable (the caller may read it).
pub open spec fn out_base(tac: ThreeAddressCode, globals: Set<Loc>) -> Set<Loc> {
    if tac is Ret {
        globals
    } else {
        Set::empty()
    }
}

/// The location of a numeric variable; a string constant has none.
pub open spec fn symbol_loc(s: NonFunctionScopedSymbol) -> Option<Loc> {
    match s {
        NonFunctionScopedSymbol::Int { name } => Some(Loc::IdentI(name@)),
        NonFunctionScopedSymbol::Float { name } => Some(Loc::IdentF(name@)),
        NonFunctionScopedSymbol::String { .. } => None,
    }
}

/// The locations of the numeric variables among the symbols.
pub open spec fn global_locs(syms: Seq<NonFunctionScopedSymbol>) -> Set<Loc> {
    Set::new(|l: Loc| exists|i: int| 0 <= i < syms.len() && symbol_loc(#[trigger] syms[i]) == Some(l))
}

/// The global numeric variables as locations.
pub fn global_lvalues(syms: &Vec<NonFunctionScopedSymbol>) -> (r: Vec<LValue>)
    ensures
        loc_set(r@) == global_locs(syms@),
{
    let mut r: Vec<LValue> = Vec::new();
    let mut i: usize = 0;
    while i < syms.len()
        invariant
            0 <= i <= syms.len(),
            loc_set(r@) == global_locs(syms@.take(i as int)),
        decreases syms.len() - i,
    {
        let ghost before = r@;
        match &syms[i] {
            NonFunctionScopedSymbol::Int { name } => {
                r.push(LValue::LValueI(LValueI::Id(IdentI(name.clone()))));
            },
            NonFunctionScopedSymbol::Float { name } => {
                r.push(LValue::LValueF(LValueF::Id(IdentF(name.clone()))));
            },
            NonFunctionScopedSymbol::String { .. } => {},
        }
        proof {
            let t = syms@.take(i as int + 1);
            let p = syms@.take(i as int);
            assert forall|j: int| 0 <= j < i implies #[trigger] t[j] == p[j] by {}
            assert(t[i as int] == syms@[i as int]);
            match symbol_loc(syms@[i as int]) {
                Some(l) => {
                    lemma_loc_set_push(before, r@.last());
                    assert(before.push(r@.last()) =~= r@);
                    assert(global_locs(t) =~= global_locs(p).insert(l)) by {
                        assert forall|x: Loc| #[trigger] global_locs(t).contains(x) implies global_locs(p).insert(l).contains(x) by {
                            let j = choose|j: int| 0 <= j < t.len() && symbol_loc(#[trigger] t[j]) == Some(x);
                            if j < i {
                                assert(symbol_loc(p[j]) == Some(x));
                            }
                        }
                        assert forall|x: Loc| #[trigger] global_locs(p).insert(l).contains(x) implies global_locs(t).contains(x) by {
                            if x != l {
                                let j = choose|j: int| 0 <= j < p.len() && symbol_loc(#[trigger] p[j]) == Some(x);
                                assert(symbol_loc(t[j]) == Some(x));
                            } else {
                                assert(symbol_loc(t[i as int]) == Some(x));
                            }
                        }
                    }
                },
                None => {
                    assert(global_locs(t) =~= global_locs(p)) by {
                        assert forall|x: Loc| #[trigger] global_locs(t).contains(x) implies global_locs(p).contains(x) by {
                            let j = choose|j: int| 0 <= j < t.len() && symbol_loc(#[trigger] t[j]) == Some(x);
                            assert(j < i);
                            assert(symbol_loc(p[j]) == Some(x));
                        }
                        assert forall|x: Loc| #[trigger] global_locs(p).contains(x) implies global_locs(t).contains(x) by {
                            let j = choose|j: int| 0 <= j < p.len() && symbol_loc(#[trigger] p[j]) == Some(x);
                            assert(symbol_loc(t[j]) == Some(x));
                        }
                    }
                },
            }
        }
        i = i + 1;
    }
    assert(syms@.take(syms.len() as int) =~= syms@);
    r
}

fn push_loc(v: &mut Vec<LValue>, x: LValue)
    ensures
        loc_set(final(v)@) == loc_set(old(v)@).insert(x@),
{
    proof {
        lemma_loc_set_push(v@, x);
    }
    v.push(x);
}

fn push_operand_i(v: &mut Vec<LValue>, o: &BinaryExprOperandI)
    ensures
        loc_set(final(v)@) == loc_set(old(v)@).union(operand_i_locs(*o)),
{
    match o {
        BinaryExprOperandI::LValue(l) => {
            push_loc(v, LValue::LValueI(l.clone()));
            assert(loc_set(v@) =~= loc_set(old(v)@).union(operand_i_locs(*o)));
        },
        BinaryExprOperandI::RValue(_) => {
            assert(loc_set(v@) =~= loc_set(old(v)@).union(operand_i_locs(*o)));
        },
    }
}

fn push_operand_f(v: &mut Vec<LValue>, o: &BinaryExprOperandF)
    ensures
        loc_set(final(v)@) == loc_set(old(v)@).union(operand_f_locs(*o)),
{
    match o {
        BinaryExprOperandF::LValue(l) => {
            push_loc(v, LValue::LValueF(l.clone()));
            assert(loc_set(v@) =~= loc_set(old(v)@).union(operand_f_locs(*o)));
        },
        BinaryExprOperandF::RValue(_) => {
            assert(loc_set(v@) =~= loc_set(old(v)@).union(operand_f_locs(*o)));
        },
    }
}

/// A three-address code instruction with its GEN, KILL, IN and OUT sets.
#[derive(Debug)]
pub struct LivenessDecoratedThreeAddressCode {
    tac: ThreeAddressCode,
    gen_set: Vec<LValue>,
    kill_set: Vec<LValue>,
    in_set: Vec<LValue>,
    out_set: Vec<LValue>,
}

impl LivenessDecoratedThreeAddressCode {
    pub closed spec fn spec_tac(&self) -> ThreeAddressCode {
        self.tac
    }

    pub closed spec fn spec_gen(&self) -> Set<Loc> {
        loc_set(self.gen_set@)
    }

    pub closed spec fn spec_kill(&self) -> Set<Loc> {
        loc_set(self.kill_set@)
    }

    pub closed spec fn spec_in(&self) -> Set<Loc> {
        loc_set(self.in_set@)
    }

    pub closed spec fn spec_out(&self) -> Set<Loc> {
        loc_set(self.out_set@)
    }

    /// Decorates an instruction with its GEN and KILL sets, which follow
    /// from its shape alone; IN starts empty, and OUT holds what is live
    /// after it whatever follows.
    pub fn from_tac(tac: ThreeAddressCode, globals: &Vec<LValue>) -> (r: Self)
        ensures
            r.spec_tac() == tac,
            r.spec_gen() == gen_of(tac, loc_set(globals@)),
            r.spec_kill() == kill_of(tac),
            r.spec_in() == Set::<Loc>::empty(),
            r.spec_out() == out_base(tac, loc_set(globals@)),
    {
        let mut gen_set: Vec<LValue> = Vec::new();
        let mut kill_set: Vec<LValue> = Vec::new();
        let mut out_set: Vec<LValue> = Vec::new();
        assert(loc_set(gen_set@) =~= Set::<Loc>::empty());
        assert(loc_set(kill_set@) =~= Set::<Loc>::empty());
        assert(loc_set(out_set@) =~= Set::<Loc>::empty());
        match &tac {
            ThreeAddressCode::AddI { lhs, rhs, .. } => {
                push_operand_i(&mut gen_set, lhs);
                push_operand_i(&mut gen_set, rhs);
            },
            ThreeAddressCode::SubI { lhs, rhs, .. } => {
                push_operand_i(&mut gen_set, lhs);
                push_operand_i(&mut gen_set, rhs);
            },
            ThreeAddressCode::MulI { lhs, rhs, .. } => {
                push_operand_i(&mut gen_set, lhs);
                push_operand_i(&mut gen_set, rhs);
            },
            ThreeAddressCode::DivI { lhs, rhs, .. } => {
                push_operand_i(&mut gen_set, lhs);
                push_operand_i(&mut gen_set, rhs);
            },
            ThreeAddressCode::GtI { lhs, rhs, .. } => {
                push_operand_i(&mut gen_set, lhs);
                push_operand_i(&mut gen_set, rhs);
            },
            ThreeAddressCode::LtI { lhs, rhs, .. } => {
                push_operand_i(&mut gen_set, lhs);
                push_operand_i(&mut gen_set, rhs);
            },
            ThreeAddressCode::GteI { lhs, rhs, .. } => {
                push_operand_i(&mut gen_set, lhs);
                push_operand_i(&mut gen_set, rhs);
            },
            ThreeAddressCode::LteI { lhs, rhs, .. } => {
                push_operand_i(&mut gen_set, lhs);
                push_operand_i(&mut gen_set, rhs);
            },
            ThreeAddressCode::NeI { lhs, rhs, .. } => {
                push_operand_i(&mut gen_set, lhs);
                push_operand_i(&mut gen_set, rhs);
            },
            ThreeAddressCode::EqI { lhs, rhs, .. } => {
                push_operand_i(&mut gen_set, lhs);
                push_operand_i(&mut gen_set, rhs);
            },
            ThreeAddressCode::AddF { lhs, rhs, .. } => {
                push_operand_f(&mut gen_set, lhs);
                push_operand_f(&mut gen_set, rhs);
            },
            ThreeAddressCode::SubF { lhs, rhs, .. } => {
                push_operand_f(&mut gen_set, lhs);
                push_operand_f(&mut gen_set, rhs);
            },
            ThreeAddressCode::MulF { lhs, rhs, .. } => {
                push_operand_f(&mut gen_set, lhs);
                push_operand_f(&mut gen_set, rhs);
            },
            ThreeAddressCode::DivF { lhs, rhs, .. } => {
                push_operand_f(&mut gen_set, lhs);
                push_operand_f(&mut gen_set, rhs);
            },
            ThreeAddressCode::GtF { lhs, rhs, .. } => {
                push_operand_f(&mut gen_set, lhs);
                push_operand_f(&mut gen_set, rhs);
            },
            ThreeAddressCode::LtF { lhs, rhs, .. } => {
                push_operand_f(&mut gen_set, lhs);
                push_operand_f(&mut gen_set, rhs);
            },
            ThreeAddressCode::GteF { lhs, rhs, .. } => {
                push_operand_f(&mut gen_set, lhs);
                push_operand_f(&mut gen_set, rhs);
            },
            ThreeAddressCode::LteF { lhs, rhs, .. } => {
                push_operand_f(&mut gen_set, lhs);
                push_operand_f(&mut gen_set, rhs);
            },
            ThreeAddressCode::NeF { lhs, rhs, .. } => {
                push_operand_f(&mut gen_set, lhs);
                push_operand_f(&mut gen_set, rhs);
            },
            ThreeAddressCode::EqF { lhs, rhs, .. } => {
                push_operand_f(&mut gen_set, lhs);
                push_operand_f(&mut gen_set, rhs);
            },
            ThreeAddressCode::StoreI { rhs, .. } => {
                push_operand_i(&mut gen_set, rhs);
            },
            ThreeAddressCode::StoreF { rhs, .. } => {
                push_operand_f(&mut gen_set, rhs);
            },
            ThreeAddressCode::WriteI { identifier } => {
                push_loc(&mut gen_set, LValue::LValueI(LValueI::Id(identifier.clone())));
            },
            ThreeAddressCode::WriteF { identifier } => {
                push_loc(&mut gen_set, LValue::LValueF(LValueF::Id(identifier.clone())));
            },
            ThreeAddressCode::PushI(o) => {
                push_operand_i(&mut gen_set, o);
            },
            ThreeAddressCode::PushF(o) => {
                push_operand_f(&mut gen_set, o);
            },
            ThreeAddressCode::Jsr(_) => {
                union_into(&mut gen_set, globals);
            },
            _ => {},
        }
        match &tac {
            ThreeAddressCode::AddI { temp_result, .. } => {
                push_loc(&mut kill_set, LValue::LValueI(LValueI::Temp(*temp_result)));
            },
            ThreeAddressCode::SubI { temp_result, .. } => {
                push_loc(&mut kill_set, LValue::LValueI(LValueI::Temp(*temp_result)));
            },
            ThreeAddressCode::MulI { temp_result, .. } => {
                push_loc(&mut kill_set, LValue::LValueI(LValueI::Temp(*temp_result)));
            },
            ThreeAddressCode::DivI { temp_result, .. } => {
                push_loc(&mut kill_set, LValue::LValueI(LValueI::Temp(*temp_result)));
            },
            ThreeAddressCode::AddF { temp_result, .. } => {
                push_loc(&mut kill_set, LValue::LValueF(LValueF::Temp(*temp_result)));
            },
            ThreeAddressCode::SubF { temp_result, .. } => {
                push_loc(&mut kill_set, LValue::LValueF(LValueF::Temp(*temp_result)));
            },
            ThreeAddressCode::MulF { temp_result, .. } => {
                push_loc(&mut kill_set, LValue::LValueF(LValueF::Temp(*temp_result)));
            },
            ThreeAddressCode::DivF { temp_result, .. } => {
                push_loc(&mut kill_set, LValue::LValueF(LValueF::Temp(*temp_result)));
            },
            ThreeAddressCode::StoreI { lhs, .. } => {
                push_loc(&mut kill_set, LValue::LValueI(lhs.clone()));
            },
            ThreeAddressCode::StoreF { lhs, .. } => {
                push_loc(&mut kill_set, LValue::LValueF(lhs.clone()));
            },
            ThreeAddressCode::ReadI { identifier } => {
                push_loc(&mut kill_set, LValue::LValueI(LValueI::Id(identifier.clone())));
            },
            ThreeAddressCode::ReadF { identifier } => {
                push_loc(&mut kill_set, LValue::LValueF(LValueF::Id(identifier.clone())));
            },
            ThreeAddressCode::PopI(l) => {
                push_loc(&mut kill_set, LValue::LValueI(l.clone()));
            },
            ThreeAddressCode::PopF(l) => {
                push_loc(&mut kill_set, LValue::LValueF(l.clone()));
            },
            _ => {},
        }
        if let ThreeAddressCode::Ret = &tac {
            union_into(&mut out_set, globals);
        }
        let in_set: Vec<LValue> = Vec::new();
        assert(loc_set(in_set@) =~= Set::<Loc>::empty());
        proof {
            assert(loc_set(gen_set@) =~= gen_of(tac, loc_set(globals@)));
            assert(loc_set(kill_set@) =~= kill_of(tac));
            assert(loc_set(out_set@) =~= out_base(tac, loc_set(globals@)));
        }
        LivenessDecoratedThreeAddressCode { tac, gen_set, kill_set, in_set, out_set }
    }

    pub fn tac(&self) -> (r: &ThreeAddressCode)
        ensures
            *r == self.spec_tac(),
    {
        &self.tac
    }

    pub fn gen_set(&self) -> (r: &Vec<LValue>)
        ensures
            loc_set(r@) == self.spec_gen(),
    {
        &self.gen_set
    }

    pub fn kill_set(&self) -> (r: &Vec<LValue>)
        ensures
            loc_set(r@) == self.spec_kill(),
    {
        &self.kill_set
    }

    pub fn in_set(&self) -> (r: &Vec<LValue>)
        ensures
            loc_set(r@) == self.spec_in(),
    {
        &self.in_set
    }

    pub fn out_set(&self) -> (r: &Vec<LValue>)
        ensures
            loc_set(r@) == self.spec_out(),
    {
        &self.out_set
    }
}


/// A basic block whose instructions carry their liveness sets.
#[derive(Debug)]
pub struct LivenessDecoratedImmutableBasicBlock {
    label: BBLabel,
    seq: Vec<LivenessDecoratedThreeAddressCode>,
}

impl LivenessDecoratedImmutableBasicBlock {
    pub closed spec fn spec_label(&self) -> BBLabel {
        self.label
    }

    pub closed spec fn spec_seq(&self) -> Seq<LivenessDecoratedThreeAddressCode> {
        self.seq@
    }

    /// Decorates each instruction of a block.
    pub fn from_block(bb: ImmutableBasicBlock, globals: &Vec<LValue>) -> (r: Self)
        ensures
            r.spec_label() == bb.spec_label(),
            r.spec_seq().len() == bb.spec_seq().len(),
            forall|i: int|
                0 <= i < r.spec_seq().len() ==> {
                    let c = #[trigger] r.spec_seq()[i];
                    &&& c.spec_tac() == bb.spec_seq()[i]
                    &&& c.spec_gen() == gen_of(bb.spec_seq()[i], loc_set(globals@))
                    &&& c.spec_kill() == kill_of(bb.spec_seq()[i])
                    &&& c.spec_in() == Set::<Loc>::empty()
                    &&& c.spec_out() == out_base(bb.spec_seq()[i], loc_set(globals@))
                },
    {
        let (label, mut code) = bb.into_parts();
        let ghost orig = code@;
        let mut seq: Vec<LivenessDecoratedThreeAddressCode> = Vec::new();
        while code.len() > 0
            invariant
                seq@.len() + code@.len() == orig.len(),
                code@ == orig.subrange(seq@.len() as int, orig.len() as int),
                forall|i: int|
                    0 <= i < seq@.len() ==> {
                        let c = #[trigger] seq@[i];
                        &&& c.spec_tac() == orig[i]
                        &&& c.spec_gen() == gen_of(orig[i], loc_set(globals@))
                        &&& c.spec_kill() == kill_of(orig[i])
                        &&& c.spec_in() == Set::<Loc>::empty()
                        &&& c.spec_out() == out_base(orig[i], loc_set(globals@))
                    },
            decreases code.len(),
        {
            let tac = code.remove(0);
            assert(tac == orig[seq@.len() as int]);
            seq.push(LivenessDecoratedThreeAddressCode::from_tac(tac, globals));
            assert(code@ =~= orig.subrange(seq@.len() as int, orig.len() as int));
        }
        LivenessDecoratedImmutableBasicBlock { label, seq }
    }

    pub fn label(&self) -> (r: BBLabel)
        ensures
            r == self.spec_label(),
    {
        self.label
    }

    pub fn seq(&self) -> (r: &Vec<LivenessDecoratedThreeAddressCode>)
        ensures
            r@ == self.spec_seq(),
    {
        &self.seq
    }

    pub fn seq_mut(&mut self) -> (r: &mut Vec<LivenessDecoratedThreeAddressCode>)
        ensures
            r@ == old(self).spec_seq(),
            final(self).spec_seq() == final(r)@,
            final(self).spec_label() == old(self).spec_label(),
    {
        &mut self.seq
    }

    /// The first instruction; a block is never empty.
    pub fn first(&self) -> (r: &LivenessDecoratedThreeAddressCode)
        requires
            self.spec_seq().len() > 0,
        ensures
            *r == self.spec_seq()[0],
    {
        &self.seq[0]
    }

    /// The last instruction; a block is never empty.
    pub fn last(&self) -> (r: &LivenessDecoratedThreeAddressCode)
        requires
            self.spec_seq().len() > 0,
        ensures
            *r == self.spec_seq().last(),
    {
        &self.seq[self.seq.len() - 1]
    }

    /// What is live on entry to the block.
    pub fn in_set(&self) -> (r: &Vec<LValue>)
        requires
            self.spec_seq().len() > 0,
        ensures
            loc_set(r@) == self.spec_seq()[0].spec_in(),
    {
        self.first().in_set()
    }

    /// What is live on exit from the block.
    pub fn out_set(&self) -> (r: &Vec<LValue>)
        requires
            self.spec_seq().len() > 0,
        ensures
            loc_set(r@) == self.spec_seq().last().spec_out(),
    {
        self.last().out_set()
    }
}

/// The IN sets of the first instructions of the listed blocks, together.
pub open spec fn firsts(ins: Seq<Seq<Set<Loc>>>, succ: Seq<u64>) -> Set<Loc>
    decreases succ.len(),
{
    if succ.len() == 0 {
        Set::empty()
    } else {
        firsts(ins, succ.drop_last()).union(
            if succ.last() < ins.len() && ins[succ.last() as int].len() > 0 {
                ins[succ.last() as int][0]
            } else {
                Set::empty()
            },
        )
    }
}

/// Pointwise inclusion of two tables of the same shape.
pub open spec fn table_le(x: Seq<Seq<Set<Loc>>>, y: Seq<Seq<Set<Loc>>>) -> bool {
    &&& x.len() == y.len()
    &&& forall|b: int| 0 <= b < x.len() ==> (#[trigger] x[b]).len() == y[b].len()
    &&& forall|b: int, i: int|
        0 <= b < x.len() && 0 <= i < x[b].len() ==> (#[trigger] x[b][i]).subset_of(y[b][i])
}

/// Every cell of the table lies within `u`.
pub open spec fn table_within(x: Seq<Seq<Set<Loc>>>, u: Set<Loc>) -> bool {
    forall|b: int, i: int| 0 <= b < x.len() && 0 <= i < x[b].len() ==> (#[trigger] x[b][i]).subset_of(u)
}

pub open spec fn row_total(r: Seq<Set<Loc>>) -> int
    decreases r.len(),
{
    if r.len() == 0 {
        0
    } else {
        row_total(r.drop_last()) + r.last().len()
    }
}

/// The summed sizes of the cells of a table.
pub open spec fn table_total(x: Seq<Seq<Set<Loc>>>) -> int
    decreases x.len(),
{
    if x.len() == 0 {
        0
    } else {
        table_total(x.drop_last()) + row_total(x.last())
    }
}

/// The number of cells of a table.
pub open spec fn table_cells(x: Seq<Seq<Set<Loc>>>) -> int
    decreases x.len(),
{
    if x.len() == 0 {
        0
    } else {
        table_cells(x.drop_last()) + x.last().len()
    }
}

proof fn lemma_firsts_mono(x: Seq<Seq<Set<Loc>>>, y: Seq<Seq<Set<Loc>>>, succ: Seq<u64>)
    requires
        table_le(x, y),
    ensures
        firsts(x, succ).subset_of(firsts(y, succ)),
    decreases succ.len(),
{
    if succ.len() > 0 {
        lemma_firsts_mono(x, y, succ.drop_last());
        let s = succ.last() as int;
        if s < x.len() && x[s].len() > 0 {
            assert(x[s][0].subset_of(y[s][0]));
        }
    }
}

proof fn lemma_firsts_within(x: Seq<Seq<Set<Loc>>>, u: Set<Loc>, succ: Seq<u64>)
    requires
        table_within(x, u),
    ensures
        firsts(x, succ).subset_of(u),
    decreases succ.len(),
{
    if succ.len() > 0 {
        lemma_firsts_within(x, u, succ.drop_last());
        let s = succ.last() as int;
        if s < x.len() && x[s].len() > 0 {
            assert(x[s][0].subset_of(u));
        }
    }
}

proof fn lemma_row_total_update(r: Seq<Set<Loc>>, i: int, n: Set<Loc>)
    requires
        0 <= i < r.len(),
    ensures
        row_total(r.update(i, n)) == row_total(r) - r[i].len() + n.len(),
    decreases r.len(),
{
    let r2 = r.update(i, n);
    if i < r.len() - 1 {
        assert(r2.drop_last() =~= r.drop_last().update(i, n));
        lemma_row_total_update(r.drop_last(), i, n);
    } else {
        assert(r2.drop_last() =~= r.drop_last());
    }
}

proof fn lemma_table_total_update(x: Seq<Seq<Set<Loc>>>, b: int, i: int, n: Set<Loc>)
    requires
        0 <= b < x.len(),
        0 <= i < x[b].len(),
    ensures
        table_total(x.update(b, x[b].update(i, n))) == table_total(x) - x[b][i].len() + n.len(),
    decreases x.len(),
{
    let x2 = x.update(b, x[b].update(i, n));
    if b < x.len() - 1 {
        assert(x2.drop_last() =~= x.drop_last().update(b, x[b].update(i, n)));
        lemma_table_total_update(x.drop_last(), b, i, n);
    } else {
        assert(x2.drop_last() =~= x.drop_last());
        lemma_row_total_update(x[b], i, n);
    }
}

proof fn lemma_row_total_bound(r: Seq<Set<Loc>>, u: Set<Loc>)
    requires
        u.finite(),
        forall|i: int| 0 <= i < r.len() ==> (#[trigger] r[i]).subset_of(u),
    ensures
        0 <= row_total(r) <= r.len() * u.len(),
    decreases r.len(),
{
    if r.len() > 0 {
        let d = r.drop_last();
        assert forall|i: int| 0 <= i < d.len() implies (#[trigger] d[i]).subset_of(u) by {
            assert(d[i] == r[i]);
        }
        lemma_row_total_bound(d, u);
        assert(r[r.len() - 1].subset_of(u));
        vstd::set_lib::lemma_len_subset(r.last(), u);
        let n = r.len() as int;
        let k = u.len() as int;
        assert((n - 1) * k + k == n * k) by (nonlinear_arith);
    }
}

proof fn lemma_table_total_bound(x: Seq<Seq<Set<Loc>>>, u: Set<Loc>)
    requires
        u.finite(),
        table_within(x, u),
    ensures
        0 <= table_total(x) <= table_cells(x) * u.len(),
    decreases x.len(),
{
    if x.len() > 0 {
        let d = x.drop_last();
        assert(table_within(d, u)) by {
            assert forall|b: int, i: int| 0 <= b < d.len() && 0 <= i < d[b].len() implies (
            #[trigger] d[b][i]).subset_of(u) by {
                assert(d[b] == x[b]);
            }
        }
        lemma_table_total_bound(d, u);
        let l = x.last();
        assert forall|i: int| 0 <= i < l.len() implies (#[trigger] l[i]).subset_of(u) by {
            assert(x[x.len() - 1][i] == l[i]);
        }
        lemma_row_total_bound(l, u);
        let c = table_cells(d);
        let k = u.len() as int;
        let n = l.len() as int;
        assert(c * k + n * k == (c + n) * k) by (nonlinear_arith);
    }
}

/// Two tables with rows of the same lengths have as many cells.
proof fn lemma_table_cells_same(x: Seq<Seq<Set<Loc>>>, y: Seq<Seq<Set<Loc>>>)
    requires
        x.len() == y.len(),
        forall|b: int| 0 <= b < x.len() ==> (#[trigger] x[b]).len() == y[b].len(),
    ensures
        table_cells(x) == table_cells(y),
    decreases x.len(),
{
    if x.len() > 0 {
        let dx = x.drop_last();
        let dy = y.drop_last();
        assert forall|b: int| 0 <= b < dx.len() implies (#[trigger] dx[b]).len() == dy[b].len() by {
            assert(dx[b] == x[b] && dy[b] == y[b]);
        }
        lemma_table_cells_same(dx, dy);
        assert(x[x.len() - 1].len() == y[y.len() - 1].len());
    }
}


/// The union of all cells of a table.
pub open spec fn table_union(x: Seq<Seq<Set<Loc>>>) -> Set<Loc>
    decreases x.len(),
{
    if x.len() == 0 {
        Set::empty()
    } else {
        table_union(x.drop_last()).union(row_union(x.last()))
    }
}

pub open spec fn row_union(r: Seq<Set<Loc>>) -> Set<Loc>
    decreases r.len(),
{
    if r.len() == 0 {
        Set::empty()
    } else {
        row_union(r.drop_last()).union(r.last())
    }
}

proof fn lemma_row_union(r: Seq<Set<Loc>>)
    requires
        forall|i: int| 0 <= i < r.len() ==> (#[trigger] r[i]).finite(),
    ensures
        row_union(r).finite(),
        forall|i: int| 0 <= i < r.len() ==> (#[trigger] r[i]).subset_of(row_union(r)),
    decreases r.len(),
{
    if r.len() > 0 {
        let d = r.drop_last();
        assert forall|i: int| 0 <= i < d.len() implies (#[trigger] d[i]).finite() by {
            assert(d[i] == r[i]);
        }
        lemma_row_union(d);
        assert(r[r.len() - 1].finite());
        assert forall|i: int| 0 <= i < r.len() implies (#[trigger] r[i]).subset_of(row_union(r)) by {
            if i < d.len() {
                assert(d[i] == r[i]);
                assert(d[i].subset_of(row_union(d)));
            }
        }
    }
}

proof fn lemma_table_union(x: Seq<Seq<Set<Loc>>>)
    requires
        forall|b: int, i: int| 0 <= b < x.len() && 0 <= i < x[b].len() ==> (#[trigger] x[b][i]).finite(),
    ensures
        table_union(x).finite(),
        table_within(x, table_union(x)),
    decreases x.len(),
{
    if x.len() > 0 {
        let d = x.drop_last();
        assert forall|b: int, i: int| 0 <= b < d.len() && 0 <= i < d[b].len() implies (
        #[trigger] d[b][i]).finite() by {
            assert(d[b] == x[b]);
        }
        lemma_table_union(d);
        let l = x.last();
        assert forall|i: int| 0 <= i < l.len() implies (#[trigger] l[i]).finite() by {
            assert(x[x.len() - 1][i] == l[i]);
        }
        lemma_row_union(l);
        assert forall|b: int, i: int| 0 <= b < x.len() && 0 <= i < x[b].len() implies (
        #[trigger] x[b][i]).subset_of(table_union(x)) by {
            if b < d.len() {
                assert(d[b] == x[b]);
                assert(d[b][i].subset_of(table_union(d)));
            } else {
                assert(l[i].subset_of(row_union(l)));
            }
        }
    }
}

/// A control-flow graph whose instructions carry their liveness sets,
/// with the global variables that a call may read and that are live
/// after a return.
#[derive(Debug)]
pub struct LivenessDecoratedControlFlowGraph {
    bb_map: LinkedHashMap<u64, Vec<u64>>,
    bbs: Vec<LivenessDecoratedImmutableBasicBlock>,
    globals: Vec<LValue>,
}

impl LivenessDecoratedControlFlowGraph {
    pub closed spec fn spec_bbs(&self) -> Seq<LivenessDecoratedImmutableBasicBlock> {
        self.bbs@
    }

    pub closed spec fn spec_edges(&self) -> Seq<(u64, Seq<u64>)> {
        edge_entries(self.bb_map)
    }

    pub closed spec fn spec_globals(&self) -> Set<Loc> {
        loc_set(self.globals@)
    }

    pub open spec fn nblocks(&self) -> int {
        self.spec_bbs().len() as int
    }

    pub open spec fn blen(&self, b: int) -> int {
        self.spec_bbs()[b].spec_seq().len() as int
    }

    /// Instruction `i` of block `b`.
    pub open spec fn cell(&self, b: int, i: int) -> LivenessDecoratedThreeAddressCode {
        self.spec_bbs()[b].spec_seq()[i]
    }

    pub open spec fn valid(&self, b: int, i: int) -> bool {
        0 <= b < self.nblocks() && 0 <= i < self.blen(b)
    }

    /// The IN sets, block by block.
    pub open spec fn ins(&self) -> Seq<Seq<Set<Loc>>> {
        Seq::new(
            self.spec_bbs().len(),
            |b: int| Seq::new(self.spec_bbs()[b].spec_seq().len(), |i: int| self.cell(b, i).spec_in()),
        )
    }

    /// The OUT sets, block by block.
    pub open spec fn outs(&self) -> Seq<Seq<Set<Loc>>> {
        Seq::new(
            self.spec_bbs().len(),
            |b: int| Seq::new(self.spec_bbs()[b].spec_seq().len(), |i: int| self.cell(b, i).spec_out()),
        )
    }

    /// The GEN sets, block by block.
    pub open spec fn gens(&self) -> Seq<Seq<Set<Loc>>> {
        Seq::new(
            self.spec_bbs().len(),
            |b: int| Seq::new(self.spec_bbs()[b].spec_seq().len(), |i: int| self.cell(b, i).spec_gen()),
        )
    }

    /// The successor blocks of block `b`.
    pub open spec fn succ_of(&self, b: int) -> Seq<u64> {
        lookup(self.spec_edges(), b as u64)
    }

    /// OUT of instruction `i` of block `b`, given the IN sets `x`: what is
    /// live after it whatever follows, IN of the next instruction unless
    /// this one never goes on to it, and, for the last instruction of the
    /// block, IN of the first instruction of each successor block.
    pub open spec fn out_eqn(&self, x: Seq<Seq<Set<Loc>>>, b: int, i: int) -> Set<Loc> {
        let t = self.cell(b, i).spec_tac();
        out_base(t, self.spec_globals()).union(
            if i + 1 < self.blen(b) && !t.spec_is_unconditional_branch() {
                x[b][i + 1]
            } else {
                Set::empty()
            },
        ).union(
            if i + 1 == self.blen(b) {
                firsts(x, self.succ_of(b))
            } else {
                Set::empty()
            },
        )
    }

    /// IN of instruction `i` of block `b`, given the IN sets `x`:
    /// `(OUT - KILL) + GEN`.
    pub open spec fn in_eqn(&self, x: Seq<Seq<Set<Loc>>>, b: int, i: int) -> Set<Loc> {
        self.out_eqn(x, b, i).difference(self.cell(b, i).spec_kill()).union(
            self.cell(b, i).spec_gen(),
        )
    }

    /// Every IN and OUT set meets the dataflow equations.
    pub open spec fn at_fixpoint(&self) -> bool {
        forall|b: int, i: int|
            self.valid(b, i) ==> (#[trigger] self.cell(b, i)).spec_in() == self.in_eqn(
                self.ins(),
                b,
                i,
            ) && self.cell(b, i).spec_out() == self.out_eqn(self.ins(), b, i)
    }

    /// No IN set holds more than its equation gives.
    pub open spec fn below_fixpoint(&self) -> bool {
        forall|b: int, i: int|
            self.valid(b, i) ==> (#[trigger] self.cell(b, i)).spec_in().subset_of(
                self.in_eqn(self.ins(), b, i),
            )
    }

    /// Blocks are non-empty and labelled by position, the edge map has one
    /// entry per key and names only blocks of the graph, and the IN sets do
    /// not exceed their equations.
    pub open spec fn wf(&self) -> bool {
        &&& self.nblocks() <= u64::MAX
        &&& forall|b: int|
            0 <= b < self.nblocks() ==> (#[trigger] self.spec_bbs()[b]).spec_seq().len() > 0
                && self.spec_bbs()[b].spec_label() == BBLabel(b as u64)
        &&& keys_unique(self.spec_edges())
        &&& no_dangling_edges(self.spec_edges(), self.nblocks())
        &&& self.below_fixpoint()
    }

    /// The two graphs have the same blocks, instructions, GEN and KILL
    /// sets, edges and globals; they may differ in IN and OUT.
    pub open spec fn same_shape(&self, other: &Self) -> bool {
        &&& self.spec_edges() == other.spec_edges()
        &&& self.spec_globals() == other.spec_globals()
        &&& self.nblocks() == other.nblocks()
        &&& forall|b: int|
            0 <= b < self.nblocks() ==> (#[trigger] self.spec_bbs()[b]).spec_label()
                == other.spec_bbs()[b].spec_label() && self.blen(b) == other.blen(b)
        &&& forall|b: int, i: int|
            self.valid(b, i) ==> (#[trigger] self.cell(b, i)).spec_tac() == other.cell(
                b,
                i,
            ).spec_tac() && self.cell(b, i).spec_gen() == other.cell(b, i).spec_gen()
                && self.cell(b, i).spec_kill() == other.cell(b, i).spec_kill()
    }

    /// A table with one cell per instruction of the graph.
    pub open spec fn fits(&self, x: Seq<Seq<Set<Loc>>>) -> bool {
        &&& x.len() == self.nblocks()
        &&& forall|b: int| 0 <= b < x.len() ==> (#[trigger] x[b]).len() == self.blen(b)
    }

    proof fn lemma_shape_eqn(g1: &Self, g2: &Self, x: Seq<Seq<Set<Loc>>>, b: int, i: int)
        requires
            g1.same_shape(g2),
            g1.valid(b, i),
        ensures
            g1.out_eqn(x, b, i) == g2.out_eqn(x, b, i),
            g1.in_eqn(x, b, i) == g2.in_eqn(x, b, i),
    {
        assert(g1.spec_bbs()[b].spec_label() == g2.spec_bbs()[b].spec_label());
        assert(g1.cell(b, i).spec_tac() == g2.cell(b, i).spec_tac());
    }

    proof fn lemma_eqn_mono(&self, x: Seq<Seq<Set<Loc>>>, y: Seq<Seq<Set<Loc>>>, b: int, i: int)
        requires
            self.fits(x),
            table_le(x, y),
            self.valid(b, i),
        ensures
            self.out_eqn(x, b, i).subset_of(self.out_eqn(y, b, i)),
            self.in_eqn(x, b, i).subset_of(self.in_eqn(y, b, i)),
    {
        lemma_firsts_mono(x, y, self.succ_of(b));
        if i + 1 < self.blen(b) {
            assert(x[b][i + 1].subset_of(y[b][i + 1]));
        }
    }

    proof fn lemma_eqn_within(&self, x: Seq<Seq<Set<Loc>>>, u: Set<Loc>, b: int, i: int)
        requires
            self.fits(x),
            table_within(x, u),
            self.valid(b, i),
            self.spec_globals().subset_of(u),
            self.cell(b, i).spec_gen().subset_of(u),
        ensures
            self.out_eqn(x, b, i).subset_of(u),
            self.in_eqn(x, b, i).subset_of(u),
    {
        lemma_firsts_within(x, u, self.succ_of(b));
        if i + 1 < self.blen(b) {
            assert(x[b][i + 1].subset_of(u));
        }
    }

    /// Every location that the analysis can put in an IN set: the globals,
    /// every GEN set, and what the IN sets already hold.
    pub open spec fn universe(&self) -> Set<Loc> {
        self.spec_globals().union(table_union(self.gens())).union(table_union(self.ins()))
    }

    proof fn lemma_universe(&self)
        ensures
            self.universe().finite(),
            self.spec_globals().subset_of(self.universe()),
            table_within(self.ins(), self.universe()),
            forall|b: int, i: int|
                self.valid(b, i) ==> (#[trigger] self.cell(b, i)).spec_gen().subset_of(
                    self.universe(),
                ),
    {
        assert forall|b: int, i: int|
            0 <= b < self.ins().len() && 0 <= i < self.ins()[b].len() implies (
            #[trigger] self.ins()[b][i]).finite() by {
            lemma_loc_set_finite(self.cell(b, i).in_set@);
        }
        assert forall|b: int, i: int|
            0 <= b < self.gens().len() && 0 <= i < self.gens()[b].len() implies (
            #[trigger] self.gens()[b][i]).finite() by {
            lemma_loc_set_finite(self.cell(b, i).gen_set@);
        }
        lemma_table_union(self.ins());
        lemma_table_union(self.gens());
        lemma_loc_set_finite(self.globals@);
        assert forall|b: int, i: int|
            self.valid(b, i) implies (#[trigger] self.cell(b, i)).spec_gen().subset_of(
                self.universe(),
            ) by {
            assert(self.gens()[b][i] == self.cell(b, i).spec_gen());
        }
    }

    /// OUT of instruction `i` of block `b`, from the current IN sets.
    fn compute_out(&self, b: usize, i: usize) -> (r: Vec<LValue>)
        requires
            self.valid(b as int, i as int),
            self.nblocks() <= u64::MAX,
            keys_unique(self.spec_edges()),
        ensures
            loc_set(r@) == self.out_eqn(self.ins(), b as int, i as int),
    {
        let ghost x = self.ins();
        let mut out: Vec<LValue> = Vec::new();
        assert(loc_set(out@) =~= Set::<Loc>::empty());
        let cell = &self.bbs[b].seq[i];
        if let ThreeAddressCode::Ret = &cell.tac {
            union_into(&mut out, &self.globals);
        }
        let ghost t = cell.tac;
        assert(loc_set(out@) =~= out_base(t, self.spec_globals()));
        let n = self.bbs[b].seq.len();
        if i + 1 < n && !cell.tac.is_unconditional_branch() {
            union_into(&mut out, &self.bbs[b].seq[i + 1].in_set);
            assert(x[b as int][i as int + 1] == self.cell(b as int, i as int + 1).spec_in());
        }
        let ghost mid = loc_set(out@);
        assert(mid =~= out_base(t, self.spec_globals()).union(
            if i + 1 < self.blen(b as int) && !t.spec_is_unconditional_branch() {
                x[b as int][i + 1]
            } else {
                Set::empty()
            },
        ));
        if i + 1 == n {
            let nb = self.bbs.len();
            match edge_map_get(&self.bb_map, b as u64) {
                Some(succ) => {
                    proof {
                        let k = choose|k: int|
                            0 <= k < self.spec_edges().len() && #[trigger] self.spec_edges()[k] == (
                            b as u64,
                            succ@,
                        );
                        lemma_lookup_entry(self.spec_edges(), k);
                    }
                    let mut k: usize = 0;
                    while k < succ.len()
                        invariant
                            0 <= k <= succ.len(),
                            nb == self.bbs.len(),
                            x == self.ins(),
                            loc_set(out@) == mid.union(firsts(x, succ@.take(k as int))),
                        decreases succ.len() - k,
                    {
                        let s = succ[k];
                        assert(succ@.take(k as int + 1).drop_last() =~= succ@.take(k as int));
                        if s < nb as u64 && self.bbs[s as usize].seq.len() > 0 {
                            union_into(&mut out, &self.bbs[s as usize].seq[0].in_set);
                            assert(x[s as int][0] == self.cell(s as int, 0).spec_in());
                        }
                        assert(loc_set(out@) =~= mid.union(firsts(x, succ@.take(k as int + 1))));
                        k = k + 1;
                    }
                    assert(succ@.take(succ.len() as int) =~= succ@);
                },
                None => {
                    proof {
                        lemma_lookup_absent(self.spec_edges(), b as u64);
                    }
                    assert(loc_set(out@) =~= mid.union(firsts(x, self.succ_of(b as int))));
                },
            }
        }
        assert(loc_set(out@) =~= self.out_eqn(x, b as int, i as int));
        out
    }

    /// A table of IN sets that holds the current ones, and that the
    /// dataflow equations do not leave: each equation, read on the table,
    /// gives a subset of the table's own cell.
    pub open spec fn upper_solution(&self, y: Seq<Seq<Set<Loc>>>) -> bool {
        &&& self.fits(y)
        &&& table_le(self.ins(), y)
        &&& forall|b: int, i: int|
            self.valid(b, i) ==> (#[trigger] self.in_eqn(y, b, i)).subset_of(y[b][i])
    }

    /// What the fixed-point loop keeps: the graph stays well formed and of
    /// the shape it started with, its IN sets stay within `u`, and below
    /// every upper solution of the starting graph.
    pub open spec fn in_progress(&self, orig: &Self, u: Set<Loc>) -> bool {
        &&& self.wf()
        &&& self.same_shape(orig)
        &&& u.finite()
        &&& self.spec_globals().subset_of(u)
        &&& forall|b: int, i: int|
            self.valid(b, i) ==> (#[trigger] self.cell(b, i)).spec_gen().subset_of(u)
        &&& table_within(self.ins(), u)
        &&& forall|y: Seq<Seq<Set<Loc>>>| #[trigger] orig.upper_solution(y) ==> table_le(self.ins(), y)
    }

    /// A table that fits a graph fits every graph of the same shape.
    proof fn lemma_fits_shape(&self, other: &Self, x: Seq<Seq<Set<Loc>>>)
        requires
            self.same_shape(other),
            self.fits(x),
        ensures
            other.fits(x),
    {
        assert forall|b: int| 0 <= b < x.len() implies (#[trigger] x[b]).len() == other.blen(b) by {
            assert(self.spec_bbs()[b].spec_label() == other.spec_bbs()[b].spec_label());
        }
    }

    /// The measure of the fixed-point loop is bounded.
    proof fn lemma_measure(&self, orig: &Self, u: Set<Loc>)
        requires
            self.same_shape(orig),
            u.finite(),
            table_within(self.ins(), u),
        ensures
            0 <= table_total(self.ins()) <= table_cells(orig.ins()) * u.len(),
    {
        assert forall|b: int| 0 <= b < self.ins().len() implies (#[trigger] self.ins()[b]).len()
            == orig.ins()[b].len() by {
            assert(self.spec_bbs()[b].spec_label() == orig.spec_bbs()[b].spec_label());
        }
        lemma_table_cells_same(self.ins(), orig.ins());
        lemma_table_total_bound(self.ins(), u);
    }

    /// Recomputes OUT and IN of instruction `i` of block `b` from the
    /// current IN sets; says whether IN changed.
    fn update_cell(&mut self, b: usize, i: usize) -> (changed: bool)
        requires
            old(self).wf(),
            old(self).valid(b as int, i as int),
        ensures
            final(self).same_shape(old(self)),
            final(self).wf(),
            ({
                let x = old(self).ins();
                final(self).ins() == x.update(
                    b as int,
                    x[b as int].update(i as int, old(self).in_eqn(x, b as int, i as int)),
                )
            }),
            final(self).cell(b as int, i as int).spec_out() == old(self).out_eqn(
                old(self).ins(),
                b as int,
                i as int,
            ),
            forall|c: int, j: int|
                old(self).valid(c, j) && !(c == b && j == i) ==> (#[trigger] final(self).cell(
                    c,
                    j,
                )).spec_out() == old(self).cell(c, j).spec_out(),
            changed == (old(self).in_eqn(old(self).ins(), b as int, i as int) != old(self).cell(
                b as int,
                i as int,
            ).spec_in()),
    {
        let ghost x = self.ins();
        let out = self.compute_out(b, i);
        let mut new_in = set_minus(&out, &self.bbs[b].seq[i].kill_set);
        union_into(&mut new_in, &self.bbs[b].seq[i].gen_set);
        let changed = !set_equal(&new_in, &self.bbs[b].seq[i].in_set);
        self.bbs[b].seq[i].in_set = new_in;
        self.bbs[b].seq[i].out_set = out;
        proof {
            let bi = b as int;
            let ii = i as int;
            let n = old(self).in_eqn(x, bi, ii);
            let x2 = x.update(bi, x[bi].update(ii, n));
            assert(self.cell(bi, ii).spec_in() == n);
            assert forall|c: int| 0 <= c < self.nblocks() implies (
            #[trigger] self.spec_bbs()[c]).spec_label() == old(self).spec_bbs()[c].spec_label()
                && self.blen(c) == old(self).blen(c) by {
                if c == bi {
                }
            }
            assert forall|c: int, j: int| self.valid(c, j) implies (#[trigger] self.cell(
                c,
                j,
            )).spec_tac() == old(self).cell(c, j).spec_tac() && self.cell(c, j).spec_gen()
                == old(self).cell(c, j).spec_gen() && self.cell(c, j).spec_kill() == old(
                self,
            ).cell(c, j).spec_kill() by {
                if c == bi && j == ii {
                } else if c == bi {
                    assert(self.cell(c, j) == old(self).cell(c, j));
                } else {
                    assert(self.spec_bbs()[c] == old(self).spec_bbs()[c]);
                }
            }
            assert(self.same_shape(old(self)));
            assert forall|c: int, j: int|
                old(self).valid(c, j) && !(c == bi && j == ii) implies (#[trigger] self.cell(
                c,
                j,
            )) == old(self).cell(c, j) by {
                if c == bi {
                } else {
                    assert(self.spec_bbs()[c] == old(self).spec_bbs()[c]);
                }
            }
            assert forall|c: int| 0 <= c < x2.len() implies #[trigger] self.ins()[c] =~= x2[c] by {
                assert forall|j: int| 0 <= j < x2[c].len() implies #[trigger] self.ins()[c][j]
                    == x2[c][j] by {
                    if !(c == bi && j == ii) {
                        assert(self.cell(c, j) == old(self).cell(c, j));
                    }
                }
            }
            assert(self.ins() =~= x2);
            assert(old(self).cell(bi, ii).spec_in().subset_of(n));
            assert(table_le(x, x2));
            assert(old(self).fits(x));
            assert forall|c: int, j: int| self.valid(c, j) implies (#[trigger] self.cell(
                c,
                j,
            )).spec_in().subset_of(self.in_eqn(self.ins(), c, j)) by {
                Self::lemma_shape_eqn(self, old(self), x2, c, j);
                old(self).lemma_eqn_mono(x, x2, c, j);
                if !(c == bi && j == ii) {
                    assert(old(self).cell(c, j).spec_in().subset_of(old(self).in_eqn(x, c, j)));
                }
            }
            assert forall|c: int, j: int|
                old(self).valid(c, j) && !(c == bi && j == ii) implies (
                #[trigger] self.cell(c, j)).spec_out() == old(self).cell(c, j).spec_out() by {
                assert(self.cell(c, j) == old(self).cell(c, j));
            }
        }
        changed
    }

    /// Computes IN and OUT of every instruction by backward passes over
    /// the blocks, from the last instruction of the last block to the
    /// first of the first, each pass reading the sets that it has just
    /// updated, until a pass changes no IN set. The result meets the
    /// dataflow equations everywhere, and it is the least solution above
    /// the IN sets it started from: no set holds a location that every
    /// solution does not hold. On a graph that meets the equations
    /// already, the sets stay as they are.
    pub fn update_in_and_out_sets(&mut self)
        requires
            old(self).wf(),
        ensures
            final(self).wf(),
            final(self).same_shape(old(self)),
            final(self).at_fixpoint(),
            forall|y: Seq<Seq<Set<Loc>>>|
                #[trigger] old(self).upper_solution(y) ==> table_le(final(self).ins(), y),
            forall|y: Seq<Seq<Set<Loc>>>, b: int, i: int|
                old(self).upper_solution(y) && final(self).valid(b, i) ==> final(self).cell(
                    b,
                    i,
                ).spec_out().subset_of(#[trigger] old(self).out_eqn(y, b, i)),
            old(self).at_fixpoint() ==> final(self).ins() == old(self).ins() && final(self).outs()
                == old(self).outs(),
    {
        let ghost orig = *self;
        let ghost u = self.universe();
        proof {
            self.lemma_universe();
            assert forall|y: Seq<Seq<Set<Loc>>>| #[trigger] orig.upper_solution(y) implies table_le(
                self.ins(),
                y,
            ) by {}
        }
        let ghost bound = table_cells(self.ins()) * u.len();
        let nb = self.bbs.len();
        loop
            invariant
                nb == self.bbs.len(),
                self.in_progress(&orig, u),
                bound == table_cells(orig.ins()) * u.len(),
                orig.at_fixpoint() ==> self.ins() == orig.ins() && self.outs() == orig.outs(),
            ensures
                self.at_fixpoint(),
            decreases bound - table_total(self.ins()),
        {
            proof {
                self.lemma_measure(&orig, u);
            }
            let ghost ps = self.ins();
            let mut updated = false;
            let mut b = nb;
            while b > 0
                invariant
                    0 <= b <= nb,
                    nb == self.bbs.len(),
                    self.in_progress(&orig, u),
                    table_le(ps, self.ins()),
                    0 <= table_total(ps) <= bound,
                    updated ==> table_total(self.ins()) > table_total(ps),
                    !updated ==> self.ins() == ps,
                    !updated ==> forall|c: int, j: int|
                        self.valid(c, j) && c >= b ==> (#[trigger] self.cell(c, j)).spec_in()
                            == self.in_eqn(self.ins(), c, j) && self.cell(c, j).spec_out()
                            == self.out_eqn(self.ins(), c, j),
                    orig.at_fixpoint() ==> !updated && ps == orig.ins() && self.outs()
                        == orig.outs(),
                decreases b,
            {
                b = b - 1;
                let n = self.bbs[b].seq.len();
                let mut i = n;
                while i > 0
                    invariant
                        0 <= i <= n,
                        0 <= b < nb,
                        n == self.blen(b as int),
                        nb == self.bbs.len(),
                        self.in_progress(&orig, u),
                        table_le(ps, self.ins()),
                        0 <= table_total(ps) <= bound,
                        updated ==> table_total(self.ins()) > table_total(ps),
                        !updated ==> self.ins() == ps,
                        !updated ==> forall|c: int, j: int|
                            self.valid(c, j) && (c > b || (c == b && j >= i)) ==> (
                            #[trigger] self.cell(c, j)).spec_in() == self.in_eqn(self.ins(), c, j)
                                && self.cell(c, j).spec_out() == self.out_eqn(self.ins(), c, j),
                        orig.at_fixpoint() ==> !updated && ps == orig.ins() && self.outs()
                            == orig.outs(),
                    decreases i,
                {
                    i = i - 1;
                    let ghost before = *self;
                    let ghost x = self.ins();
                    let changed = self.update_cell(b, i);
                    proof {
                        let bi = b as int;
                        let ii = i as int;
                        let nw = before.in_eqn(x, bi, ii);
                        let x2 = self.ins();
                        assert(before.fits(x));
                        before.lemma_eqn_within(x, u, bi, ii);
                        assert(before.cell(bi, ii).spec_in().subset_of(nw));
                        assert(x2 == x.update(bi, x[bi].update(ii, nw)));
                        assert(table_within(x2, u)) by {
                            assert forall|c: int, j: int|
                                0 <= c < x2.len() && 0 <= j < x2[c].len() implies (
                                #[trigger] x2[c][j]).subset_of(u) by {
                                if !(c == bi && j == ii) {
                                    assert(x2[c][j] == x[c][j]);
                                }
                            }
                        }
                        assert(table_le(x, x2));
                        assert(table_le(ps, x2)) by {
                            assert forall|c: int, j: int|
                                0 <= c < ps.len() && 0 <= j < ps[c].len() implies (
                                #[trigger] ps[c][j]).subset_of(x2[c][j]) by {
                                assert(ps[c][j].subset_of(x[c][j]));
                                assert(x[c][j].subset_of(x2[c][j]));
                            }
                        }
                        assert forall|y: Seq<Seq<Set<Loc>>>| #[trigger] orig.upper_solution(y) implies table_le(
                            x2,
                            y,
                        ) by {
                            before.lemma_fits_shape(&orig, x);
                            Self::lemma_shape_eqn(&before, &orig, x, bi, ii);
                            orig.lemma_eqn_mono(x, y, bi, ii);
                            assert forall|c: int, j: int|
                                0 <= c < x2.len() && 0 <= j < x2[c].len() implies (
                                #[trigger] x2[c][j]).subset_of(y[c][j]) by {
                                if !(c == bi && j == ii) {
                                    assert(x2[c][j] == x[c][j]);
                                    assert(x[c][j].subset_of(y[c][j]));
                                }
                            }
                        }
                        lemma_table_total_update(x, bi, ii, nw);
                        vstd::set_lib::lemma_len_subset(x[bi][ii], u);
                        vstd::set_lib::lemma_len_subset(nw, u);
                        vstd::set_lib::lemma_len_subset(x[bi][ii], nw);
                        assert(x[bi][ii] == before.cell(bi, ii).spec_in());
                        if changed {
                            if nw.subset_of(x[bi][ii]) {
                                assert(nw =~= x[bi][ii]);
                            }
                            let e = choose|e: Loc| nw.contains(e) && !x[bi][ii].contains(e);
                            x[bi][ii].lemma_subset_not_in_lt(nw, e);
                        } else {
                            assert(x[bi].update(ii, nw) =~= x[bi]);
                            assert(x2 =~= x);
                        }
                        if !updated && !changed {
                            assert forall|c: int, j: int|
                                self.valid(c, j) && (c > b || (c == b && j >= i)) implies (
                                #[trigger] self.cell(c, j)).spec_in() == self.in_eqn(
                                    self.ins(),
                                    c,
                                    j,
                                ) && self.cell(c, j).spec_out() == self.out_eqn(self.ins(), c, j) by {
                                Self::lemma_shape_eqn(self, &before, x, c, j);
                                if !(c == bi && j == ii) {
                                    assert(before.cell(c, j).spec_in() == x[c][j]);
                                    assert(self.ins()[c][j] == self.cell(c, j).spec_in());
                                }
                            }
                        }
                        if orig.at_fixpoint() {
                            Self::lemma_shape_eqn(&before, &orig, x, bi, ii);
                            assert(orig.cell(bi, ii).spec_in() == orig.ins()[bi][ii]);
                            assert(before.cell(bi, ii).spec_in() == x[bi][ii]);
                            assert(nw == x[bi][ii]);
                            assert(!changed);
                            assert(x[bi].update(ii, nw) =~= x[bi]);
                            assert(x2 =~= x);
                            assert(before.outs() == orig.outs());
                            assert(before.cell(bi, ii).spec_out() == before.outs()[bi][ii]);
                            assert(orig.cell(bi, ii).spec_out() == orig.outs()[bi][ii]);
                            assert forall|c: int| 0 <= c < self.outs().len() implies #[trigger] self.outs()[c] =~= orig.outs()[c] by {
                                assert forall|j: int| 0 <= j < self.outs()[c].len() implies #[trigger] self.outs()[c][j] == orig.outs()[c][j] by {
                                    assert(self.outs()[c][j] == self.cell(c, j).spec_out());
                                    assert(before.outs()[c][j] == before.cell(c, j).spec_out());
                                    if !(c == bi && j == ii) {
                                        assert(self.cell(c, j).spec_out() == before.cell(c, j).spec_out());
                                    }
                                }
                            }
                            assert(self.outs() =~= orig.outs());
                        }
                    }
                    if changed {
                        updated = true;
                    }
                }
            }
            proof {
                self.lemma_measure(&orig, u);
            }
            if !updated {
                proof {
                    assert forall|c: int, j: int| self.valid(c, j) implies (#[trigger] self.cell(
                        c,
                        j,
                    )).spec_in() == self.in_eqn(self.ins(), c, j) && self.cell(c, j).spec_out()
                        == self.out_eqn(self.ins(), c, j) by {}
                }
                break;
            }
        }
        proof {
            assert forall|y: Seq<Seq<Set<Loc>>>, b: int, i: int|
                orig.upper_solution(y) && self.valid(b, i) implies (#[trigger] self.cell(
                b,
                i,
            )).spec_out().subset_of(#[trigger] orig.out_eqn(y, b, i)) by {
                self.lemma_fits_shape(&orig, self.ins());
                Self::lemma_shape_eqn(self, &orig, self.ins(), b, i);
                orig.lemma_eqn_mono(self.ins(), y, b, i);
            }
        }
    }

    /// Decorates every instruction of the graph with its GEN and KILL sets;
    /// `symbols` are the program's global symbols. IN sets start empty.
    pub fn from_cfg(cfg: ControlFlowGraph, symbols: &Vec<NonFunctionScopedSymbol>) -> (r: Self)
        requires
            cfg.wf(),
        ensures
            r.wf(),
            r.spec_edges() == cfg.spec_edges(),
            r.spec_globals() == global_locs(symbols@),
            r.nblocks() == cfg.spec_bbs().len(),
            forall|b: int|
                0 <= b < r.nblocks() ==> (#[trigger] r.spec_bbs()[b]).spec_label()
                    == cfg.spec_bbs()[b].spec_label() && r.blen(b)
                    == cfg.spec_bbs()[b].spec_seq().len(),
            forall|b: int, i: int|
                r.valid(b, i) ==> {
                    let c = #[trigger] r.cell(b, i);
                    let t = cfg.spec_bbs()[b].spec_seq()[i];
                    &&& c.spec_tac() == t
                    &&& c.spec_gen() == gen_of(t, global_locs(symbols@))
                    &&& c.spec_kill() == kill_of(t)
                    &&& c.spec_in() == Set::<Loc>::empty()
                    &&& c.spec_out() == out_base(t, global_locs(symbols@))
                },
    {
        let ghost src = cfg.spec_bbs();
        proof {
            assert forall|b: int| 0 <= b < src.len() implies (#[trigger] src[b]).spec_seq().len() > 0 by {
                assert(block_seqs(src)[b] == src[b].spec_seq());
            }
        }
        let (bb_map, mut rest) = cfg.into_parts();
        let globals = global_lvalues(symbols);
        let mut bbs: Vec<LivenessDecoratedImmutableBasicBlock> = Vec::new();
        while rest.len() > 0
            invariant
                bbs@.len() + rest@.len() == src.len(),
                rest@ == src.subrange(bbs@.len() as int, src.len() as int),
                loc_set(globals@) == global_locs(symbols@),
                forall|b: int|
                    0 <= b < bbs@.len() ==> (#[trigger] bbs@[b]).spec_label() == src[b].spec_label()
                        && bbs@[b].spec_seq().len() == src[b].spec_seq().len(),
                forall|b: int, i: int|
                    0 <= b < bbs@.len() && 0 <= i < bbs@[b].spec_seq().len() ==> {
                        let c = #[trigger] bbs@[b].spec_seq()[i];
                        let t = src[b].spec_seq()[i];
                        &&& c.spec_tac() == t
                        &&& c.spec_gen() == gen_of(t, global_locs(symbols@))
                        &&& c.spec_kill() == kill_of(t)
                        &&& c.spec_in() == Set::<Loc>::empty()
                        &&& c.spec_out() == out_base(t, global_locs(symbols@))
                    },
            decreases rest.len(),
        {
            let bb = rest.remove(0);
            assert(bb == src[bbs@.len() as int]);
            let d = LivenessDecoratedImmutableBasicBlock::from_block(bb, &globals);
            bbs.push(d);
            assert(rest@ =~= src.subrange(bbs@.len() as int, src.len() as int));
        }
        let nbl = bbs.len();
        assert(nbl <= u64::MAX);
        let r = LivenessDecoratedControlFlowGraph { bb_map, bbs, globals };
        proof {
            assert(r.nblocks() == nbl);
            assert forall|b: int| 0 <= b < r.nblocks() implies (#[trigger] r.spec_bbs()[b]).spec_seq().len() > 0
                && r.spec_bbs()[b].spec_label() == BBLabel(b as u64) by {
                assert(src[b].spec_label() == BBLabel(b as u64));
            }
            assert(keys_unique(r.spec_edges()));
            assert(no_dangling_edges(r.spec_edges(), r.nblocks()));
            assert forall|b: int, i: int| r.valid(b, i) implies (#[trigger] r.cell(b, i)).spec_in().subset_of(
                r.in_eqn(r.ins(), b, i),
            ) by {
                assert(r.cell(b, i) == r.spec_bbs()[b].spec_seq()[i]);
            }
        }
        r
    }

    /// The blocks in program order.
    pub fn basic_blocks(&self) -> (r: &Vec<LivenessDecoratedImmutableBasicBlock>)
        ensures
            r@ == self.spec_bbs(),
    {
        &self.bbs
    }

    /// The edge map: each block that has successors, with their labels.
    pub fn basic_block_map(&self) -> (r: Vec<(BBLabel, Vec<BBLabel>)>)
        ensures
            labelled_edges(r@, self.spec_edges()),
    {
        edge_list(&self.bb_map)
    }

    /// The successors of block `b`, if it has any.
    pub fn neighbors_of_bb(&self, b: BBLabel) -> (r: Option<Vec<u64>>)
        requires
            keys_unique(self.spec_edges()),
        ensures
            match r {
                Some(v) => v@ == self.succ_of(b.0 as int),
                None => self.succ_of(b.0 as int) == Seq::<u64>::empty(),
            },
    {
        let r = edge_map_get(&self.bb_map, b.0);
        proof {
            match &r {
                Some(v) => {
                    let i = choose|i: int|
                        0 <= i < self.spec_edges().len() && #[trigger] self.spec_edges()[i] == (
                        b.0,
                        v@,
                    );
                    lemma_lookup_entry(self.spec_edges(), i);
                },
                None => {
                    lemma_lookup_absent(self.spec_edges(), b.0);
                },
            }
        }
        r
    }

    /// The block with the given label, if the graph has it.
    pub fn basic_block_for_label(&self, bb_label: BBLabel) -> (r: Option<
        &LivenessDecoratedImmutableBasicBlock,
    >)
        ensures
            match r {
                Some(blk) => bb_label.0 < self.nblocks() && *blk == self.spec_bbs()[bb_label.0 as int],
                None => bb_label.0 >= self.nblocks(),
            },
    {
        if bb_label.0 < self.bbs.len() as u64 {
            Some(&self.bbs[bb_label.0 as usize])
        } else {
            None
        }
    }
}

/// At a fixed point, what is live on entry to a block is live on exit
/// from each block that control can reach it from: for every edge from
/// block `b` to block `s`, IN of the first instruction of `s` is within
/// OUT of the last instruction of `b`. Within a block, IN of an
/// instruction is within OUT of the one before it unless that one is a
/// jump or a return; and an instruction's IN holds its GEN and what of
/// its OUT it does not overwrite.
pub proof fn lemma_liveness_flows_back(g: &LivenessDecoratedControlFlowGraph, b: int, k: int)
    requires
        g.wf(),
        g.at_fixpoint(),
        0 <= b < g.nblocks(),
        0 <= k < g.succ_of(b).len(),
    ensures
        ({
            let s = g.succ_of(b)[k] as int;
            &&& 0 <= s < g.nblocks()
            &&& g.cell(s, 0).spec_in().subset_of(g.cell(b, g.blen(b) - 1).spec_out())
        }),
        forall|i: int|
            0 <= i && i + 1 < g.blen(b) && !g.cell(b, i).spec_tac().spec_is_unconditional_branch()
                ==> (#[trigger] g.cell(b, i + 1)).spec_in().subset_of(g.cell(b, i).spec_out()),
        forall|i: int|
            0 <= i < g.blen(b) ==> (#[trigger] g.cell(b, i)).spec_gen().subset_of(
                g.cell(b, i).spec_in(),
            ) && g.cell(b, i).spec_out().difference(g.cell(b, i).spec_kill()).subset_of(
                g.cell(b, i).spec_in(),
            ),
{
    let es = g.spec_edges();
    let bu = b as u64;
    let succ = g.succ_of(b);
    lemma_lookup_in(es, bu);
    let e = choose|e: int| 0 <= e < es.len() && es[e].0 == bu && #[trigger] es[e].1 == succ;
    let s = succ[k] as int;
    assert(es[e].1[k] < g.nblocks());
    let last = g.blen(b) - 1;
    assert(g.valid(b, last));
    assert(g.cell(b, last).spec_out() == g.out_eqn(g.ins(), b, last));
    assert(g.spec_bbs()[s].spec_seq().len() > 0);
    lemma_firsts_member(g.ins(), succ, k);
    assert(g.ins()[s][0] == g.cell(s, 0).spec_in());
    assert forall|i: int|
        0 <= i && i + 1 < g.blen(b) && !g.cell(b, i).spec_tac().spec_is_unconditional_branch()
            implies (#[trigger] g.cell(b, i + 1)).spec_in().subset_of(g.cell(b, i).spec_out()) by {
        assert(g.valid(b, i));
        assert(g.ins()[b][i + 1] == g.cell(b, i + 1).spec_in());
    }
    assert forall|i: int| 0 <= i < g.blen(b) implies (#[trigger] g.cell(b, i)).spec_gen().subset_of(
        g.cell(b, i).spec_in(),
    ) && g.cell(b, i).spec_out().difference(g.cell(b, i).spec_kill()).subset_of(
        g.cell(b, i).spec_in(),
    ) by {
        assert(g.valid(b, i));
    }
}

/// A block listed among the successors contributes its first IN set.
proof fn lemma_firsts_member(x: Seq<Seq<Set<Loc>>>, succ: Seq<u64>, k: int)
    requires
        0 <= k < succ.len(),
        succ[k] < x.len(),
        x[succ[k] as int].len() > 0,
    ensures
        x[succ[k] as int][0].subset_of(firsts(x, succ)),
    decreases succ.len(),
{
    if k < succ.len() - 1 {
        let d = succ.drop_last();
        assert(d[k] == succ[k]);
        lemma_firsts_member(x, d, k);
    }
}

/// A non-empty lookup comes from an entry with that key.
proof fn lemma_lookup_in(es: Seq<(u64, Seq<u64>)>, b: u64)
    ensures
        lookup(es, b).len() > 0 ==> exists|e: int|
            0 <= e < es.len() && es[e].0 == b && #[trigger] es[e].1 == lookup(es, b),
    decreases es.len(),
{
    if es.len() > 0 && es.last().0 != b {
        let d = es.drop_last();
        lemma_lookup_in(d, b);
        if lookup(es, b).len() > 0 {
            let e = choose|e: int| 0 <= e < d.len() && d[e].0 == b && #[trigger] d[e].1 == lookup(d, b);
            assert(es[e] == d[e]);
        }
    } else if es.len() > 0 {
        assert(es[es.len() - 1].1 == lookup(es, b));
    }
}

/// Instruction `q` can run right after instruction `p`: the next one in
/// the block unless `p` is a jump or a return, or, after the last
/// instruction of a block, the first one of a successor block.
pub open spec fn flows_to(g: &LivenessDecoratedControlFlowGraph, p: (int, int), q: (int, int)) -> bool {
    &&& g.valid(p.0, p.1)
    &&& g.valid(q.0, q.1)
    &&& {
        ||| q.0 == p.0 && q.1 == p.1 + 1 && !g.cell(p.0, p.1).spec_tac().spec_is_unconditional_branch()
        ||| p.1 == g.blen(p.0) - 1 && q.1 == 0 && g.succ_of(p.0).contains(q.0 as u64)
    }
}

/// A run of instructions that control can take, one after the other.
pub open spec fn is_path(g: &LivenessDecoratedControlFlowGraph, path: Seq<(int, int)>) -> bool {
    &&& path.len() > 0
    &&& g.valid(path[0].0, path[0].1)
    &&& forall|k: int| 0 <= k < path.len() - 1 ==> flows_to(g, #[trigger] path[k], path[k + 1])
}

/// Liveness is carried back along every path, loops and their back
/// edges included: at a fixed point, a location that the last
/// instruction of a path reads, and that no instruction of the path
/// before it writes, is in IN of the path's first instruction.
pub proof fn lemma_live_along_path(
    g: &LivenessDecoratedControlFlowGraph,
    path: Seq<(int, int)>,
    v: Loc,
)
    requires
        g.wf(),
        g.at_fixpoint(),
        is_path(g, path),
        g.cell(path.last().0, path.last().1).spec_gen().contains(v),
        forall|k: int|
            0 <= k < path.len() - 1 ==> !(#[trigger] g.cell(path[k].0, path[k].1)).spec_kill().contains(v),
    ensures
        g.cell(path[0].0, path[0].1).spec_in().contains(v),
    decreases path.len(),
{
    let (b, i) = path[0];
    if path.len() == 1 {
        assert(g.valid(b, i));
        assert(g.cell(b, i).spec_in() == g.in_eqn(g.ins(), b, i));
    } else {
        let rest = path.drop_first();
        assert(flows_to(g, path[0], path[1]));
        assert forall|k: int| 0 <= k < rest.len() - 1 implies flows_to(g, #[trigger] rest[k], rest[k + 1]) by {
            assert(flows_to(g, path[k + 1], path[k + 2]));
        }
        assert forall|k: int|
            0 <= k < rest.len() - 1 implies !(#[trigger] g.cell(rest[k].0, rest[k].1)).spec_kill().contains(v) by {
            assert(rest[k] == path[k + 1]);
        }
        assert(rest.last() == path.last());
        lemma_live_along_path(g, rest, v);
        let (c, j) = path[1];
        assert(g.cell(c, j).spec_in().contains(v));
        assert(g.valid(b, i));
        if c == b && j == i + 1 && !g.cell(b, i).spec_tac().spec_is_unconditional_branch() {
            assert(g.ins()[b][i + 1] == g.cell(b, i + 1).spec_in());
            assert(g.cell(b, i).spec_out() == g.out_eqn(g.ins(), b, i));
        } else {
            let k = choose|k: int| 0 <= k < g.succ_of(b).len() && g.succ_of(b)[k] == c as u64;
            lemma_liveness_flows_back(g, b, k);
            assert(g.succ_of(b)[k] as int == c);
        }
        assert(g.cell(b, i).spec_out().contains(v));
        assert(g.cell(b, i).spec_in() == g.in_eqn(g.ins(), b, i));
    }
}

} // verus!
