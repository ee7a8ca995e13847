//! Basic blocks, control-flow graphs, and liveness over them.
use vstd::prelude::*;

use linked_hash_map::LinkedHashMap;

use crate::cfg::basic_block::{
    block_seqs, concat, labels_are_positions, labels_mapped, well_split, BBFunction, BBLabel,
    ImmutableBasicBlock,
};
use crate::three_addr_code_ir::three_address_code::ThreeAddressCode;
use crate::three_addr_code_ir::Label;

pub mod basic_block;
pub mod liveness;

verus! {

broadcast use vstd::std_specs::hash::group_hash_axioms;

#[verifier::external_type_specification]
#[verifier::external_body]
#[verifier::reject_recursive_types(K)]
#[verifier::reject_recursive_types(V)]
#[verifier::reject_recursive_types(S)]
pub struct ExLinkedHashMap<K, V, S>(LinkedHashMap<K, V, S>);

/// The entries of an edge map, in insertion order: each block label with
/// its successor labels.
pub uninterp spec fn edge_entries(m: LinkedHashMap<u64, Vec<u64>>) -> Seq<(u64, Seq<u64>)>;

/// No two entries share a key.
pub open spec fn keys_unique(es: Seq<(u64, Seq<u64>)>) -> bool {
    forall|i: int, j: int| 0 <= i < es.len() && 0 <= j < es.len() && i != j ==> es[i].0 != es[j].0
}

/// The successors that the entries give to `b`; none if `b` has no entry.
pub open spec fn lookup(es: Seq<(u64, Seq<u64>)>, b: u64) -> Seq<u64>
    decreases es.len(),
{
    if es.len() == 0 {
        Seq::empty()
    } else if es.last().0 == b {
        es.last().1
    } else {
        lookup(es.drop_last(), b)
    }
}

/// Relies on `LinkedHashMap::new`: a new map has no entries.
#[verifier::external_body]
fn edge_map_new() -> (r: LinkedHashMap<u64, Vec<u64>>)
    ensures
        edge_entries(r) == Seq::<(u64, Seq<u64>)>::empty(),
{
    LinkedHashMap::new()
}

/// Relies on `LinkedHashMap::insert`: a key that the map does not hold is
/// added as the last entry.
#[verifier::external_body]
fn edge_map_insert(m: &mut LinkedHashMap<u64, Vec<u64>>, k: u64, v: Vec<u64>)
    requires
        forall|i: int| 0 <= i < edge_entries(*old(m)).len() ==> edge_entries(*old(m))[i].0 != k,
    ensures
        edge_entries(*final(m)) == edge_entries(*old(m)).push((k, v@)),
{
    m.insert(k, v);
}

/// Relies on `LinkedHashMap::get`: the value of the entry with key `k`,
/// if there is one.
#[verifier::external_body]
pub(crate) fn edge_map_get(m: &LinkedHashMap<u64, Vec<u64>>, k: u64) -> (r: Option<Vec<u64>>)
    ensures
        match r {
            Some(v) => exists|i: int|
                0 <= i < edge_entries(*m).len() && #[trigger] edge_entries(*m)[i] == (k, v@),
            None => forall|i: int|
                0 <= i < edge_entries(*m).len() ==> #[trigger] edge_entries(*m)[i].0 != k,
        },
{
    m.get(&k).cloned()
}

/// Relies on `LinkedHashMap::iter`: the entries in insertion order.
#[verifier::external_body]
pub(crate) fn edge_map_entries(m: &LinkedHashMap<u64, Vec<u64>>) -> (r: Vec<(u64, Vec<u64>)>)
    ensures
        r@.len() == edge_entries(*m).len(),
        forall|i: int|
            0 <= i < r@.len() ==> (#[trigger] r@[i]).0 == edge_entries(*m)[i].0 && r@[i].1@
                == edge_entries(*m)[i].1,
{
    m.iter().map(|(k, v)| (*k, v.clone())).collect()
}

/// The lookup of a key finds the entry that holds it.
pub proof fn lemma_lookup_entry(es: Seq<(u64, Seq<u64>)>, i: int)
    requires
        keys_unique(es),
        0 <= i < es.len(),
    ensures
        lookup(es, es[i].0) == es[i].1,
    decreases es.len(),
{
    if i < es.len() - 1 {
        assert(es.last().0 != es[i].0);
        let d = es.drop_last();
        assert(d[i] == es[i]);
        assert(keys_unique(d)) by {
            assert forall|a: int, b: int|
                0 <= a < d.len() && 0 <= b < d.len() && a != b implies d[a].0 != d[b].0 by {
                assert(d[a] == es[a] && d[b] == es[b]);
            }
        }
        lemma_lookup_entry(d, i);
    }
}

/// The lookup of a key that no entry holds finds nothing.
pub proof fn lemma_lookup_absent(es: Seq<(u64, Seq<u64>)>, b: u64)
    requires
        forall|i: int| 0 <= i < es.len() ==> #[trigger] es[i].0 != b,
    ensures
        lookup(es, b) == Seq::<u64>::empty(),
    decreases es.len(),
{
    if es.len() > 0 {
        let d = es.drop_last();
        assert forall|i: int| 0 <= i < d.len() implies #[trigger] d[i].0 != b by {
            assert(d[i] == es[i]);
        }
        lemma_lookup_absent(d, b);
    }
}

/// The block that a jump or branch at the end of block `k` goes to.
pub open spec fn explicit_succ(
    bs: Seq<Seq<ThreeAddressCode>>,
    m: Map<u64, u64>,
    k: int,
) -> Seq<u64> {
    match bs[k].last().spec_target() {
        Some(l) => seq![m[l]],
        None => Seq::empty(),
    }
}

/// The next block, if control can fall through to it from block `k`.
pub open spec fn fall_through_succ(bs: Seq<Seq<ThreeAddressCode>>, k: int) -> Seq<u64> {
    if k + 1 < bs.len() && !bs[k].last().spec_is_unconditional_branch() {
        seq![(k + 1) as u64]
    } else {
        Seq::empty()
    }
}

/// The successors of block `k`: the jump target first, then the
/// fall-through block.
pub open spec fn succs(bs: Seq<Seq<ThreeAddressCode>>, m: Map<u64, u64>, k: int) -> Seq<u64> {
    explicit_succ(bs, m, k) + fall_through_succ(bs, k)
}

/// The edge map of the first `n` blocks: one entry for each block that
/// has a successor, in block order.
pub open spec fn edges_upto(bs: Seq<Seq<ThreeAddressCode>>, m: Map<u64, u64>, n: int) -> Seq<
    (u64, Seq<u64>),
>
    decreases n,
{
    if n <= 0 {
        Seq::empty()
    } else if succs(bs, m, n - 1).len() > 0 {
        edges_upto(bs, m, n - 1).push(((n - 1) as u64, succs(bs, m, n - 1)))
    } else {
        edges_upto(bs, m, n - 1)
    }
}

/// Every jump or branch at the end of a block goes to a label that
/// starts a block.
pub open spec fn targets_resolved(bs: Seq<Seq<ThreeAddressCode>>, m: Map<u64, u64>) -> bool {
    forall|k: int|
        0 <= k < bs.len() && (#[trigger] bs[k]).last().spec_target() is Some ==> m.contains_key(
            bs[k].last().spec_target()->Some_0,
        )
}

/// The first block, from `k` on, whose jump target starts no block.
pub open spec fn first_unresolved(bs: Seq<Seq<ThreeAddressCode>>, m: Map<u64, u64>, k: int) -> int
    decreases bs.len() - k,
{
    if k >= bs.len() {
        k
    } else if bs[k].last().spec_target() is Some && !m.contains_key(
        bs[k].last().spec_target()->Some_0,
    ) {
        k
    } else {
        first_unresolved(bs, m, k + 1)
    }
}

/// The jump target of the first block whose jump or branch goes to a
/// label that starts no block; none if every target starts a block.
pub fn first_unresolved_target(f: &BBFunction) -> (r: Option<u64>)
    requires
        well_split(block_seqs(f.spec_bbs())),
    ensures
        r is None <==> targets_resolved(block_seqs(f.spec_bbs()), f.spec_label_map()),
        r is Some ==> {
            let bs = block_seqs(f.spec_bbs());
            let k = first_unresolved(bs, f.spec_label_map(), 0);
            &&& 0 <= k < bs.len()
            &&& r->Some_0 == bs[k].last().spec_target()->Some_0
        },
{
    let bbs = f.blocks();
    let map = f.label_map();
    let ghost bs = block_seqs(f.spec_bbs());
    let ghost m = f.spec_label_map();
    let mut k: usize = 0;
    while k < bbs.len()
        invariant
            bs == block_seqs(bbs@),
            bs == block_seqs(f.spec_bbs()),
            m == f.spec_label_map(),
            m == map@,
            well_split(bs),
            0 <= k <= bbs.len(),
            first_unresolved(bs, m, 0) == first_unresolved(bs, m, k as int),
            forall|j: int|
                0 <= j < k && (#[trigger] bs[j]).last().spec_target() is Some ==> m.contains_key(
                    bs[j].last().spec_target()->Some_0,
                ),
        decreases bbs.len() - k,
    {
        assert(bs[k as int] == bbs@[k as int].spec_seq());
        assert(bs[k as int].len() > 0);
        match bbs[k].last().get_label_if_branch_or_jump() {
            Some(l) => {
                if !map.contains_key(&l.0) {
                    assert(first_unresolved(bs, m, k as int) == k);
                    return Some(l.0);
                }
            },
            None => {},
        }
        k = k + 1;
    }
    None
}

/// Why a function's blocks cannot form a control-flow graph.
#[derive(Debug, PartialEq, Eq, Clone, Copy)]
pub enum CfgError {
    /// A jump or branch goes to this label, which starts no block.
    UnresolvedJumpTarget(u64),
}

/// The control-flow graph of a function: its blocks in program order, and
/// for each block with successors, the labels of those successors.
#[derive(Debug)]
pub struct ControlFlowGraph {
    bb_map: LinkedHashMap<u64, Vec<u64>>,
    bbs: Vec<ImmutableBasicBlock>,
}

/// The pairs list the entries, with each label as a block label.
pub open spec fn labelled_edges(r: Seq<(BBLabel, Vec<BBLabel>)>, es: Seq<(u64, Seq<u64>)>) -> bool {
    &&& r.len() == es.len()
    &&& forall|i: int|
        0 <= i < r.len() ==> (#[trigger] r[i]).0 == BBLabel(es[i].0) && r[i].1@.len()
            == es[i].1.len() && forall|j: int|
            0 <= j < r[i].1@.len() ==> #[trigger] r[i].1@[j] == BBLabel(es[i].1[j])
}

/// The entries of an edge map with block labels.
pub(crate) fn edge_list(m: &LinkedHashMap<u64, Vec<u64>>) -> (r: Vec<(BBLabel, Vec<BBLabel>)>)
    ensures
        labelled_edges(r@, edge_entries(*m)),
{
    let es = edge_map_entries(m);
    let mut r: Vec<(BBLabel, Vec<BBLabel>)> = Vec::new();
    let mut i: usize = 0;
    while i < es.len()
        invariant
            es@.len() == edge_entries(*m).len(),
            forall|x: int|
                0 <= x < es@.len() ==> (#[trigger] es@[x]).0 == edge_entries(*m)[x].0 && es@[x].1@
                    == edge_entries(*m)[x].1,
            0 <= i <= es.len(),
            r@.len() == i,
            forall|x: int|
                0 <= x < i ==> (#[trigger] r@[x]).0 == BBLabel(edge_entries(*m)[x].0) && r@[x].1@.len()
                    == edge_entries(*m)[x].1.len() && forall|j: int|
                    0 <= j < r@[x].1@.len() ==> #[trigger] r@[x].1@[j] == BBLabel(
                        edge_entries(*m)[x].1[j],
                    ),
        decreases es.len() - i,
    {
        let succ = &es[i].1;
        let mut labels: Vec<BBLabel> = Vec::new();
        let mut j: usize = 0;
        while j < succ.len()
            invariant
                0 <= j <= succ.len(),
                labels@.len() == j,
                forall|y: int| 0 <= y < j ==> #[trigger] labels@[y] == BBLabel(succ@[y]),
            decreases succ.len() - j,
        {
            labels.push(BBLabel(succ[j]));
            j = j + 1;
        }
        r.push((BBLabel(es[i].0), labels));
        i = i + 1;
    }
    r
}

/// Every key and every successor of the entries is a block of `n`.
pub open spec fn no_dangling_edges(es: Seq<(u64, Seq<u64>)>, n: int) -> bool {
    &&& forall|i: int| 0 <= i < es.len() ==> (#[trigger] es[i]).0 < n
    &&& forall|i: int, j: int|
        0 <= i < es.len() && 0 <= j < es[i].1.len() ==> (#[trigger] es[i].1[j]) < n
}

impl ControlFlowGraph {
    pub closed spec fn spec_bbs(&self) -> Seq<ImmutableBasicBlock> {
        self.bbs@
    }

    pub closed spec fn spec_edges(&self) -> Seq<(u64, Seq<u64>)> {
        edge_entries(self.bb_map)
    }

    /// The graph is built from well-cut blocks, and its edge map has one
    /// entry per key, naming only its own blocks.
    pub open spec fn wf(&self) -> bool {
        &&& well_split(block_seqs(self.spec_bbs()))
        &&& labels_are_positions(self.spec_bbs())
        &&& keys_unique(self.spec_edges())
        &&& no_dangling_edges(self.spec_edges(), self.spec_bbs().len() as int)
    }

    proof fn lemma_edges_upto(bs: Seq<Seq<ThreeAddressCode>>, m: Map<u64, u64>, n: int)
        requires
            0 <= n <= bs.len(),
            bs.len() <= u64::MAX,
            labels_mapped(bs, m),
            targets_resolved(bs, m),
        ensures
            forall|i: int|
                0 <= i < edges_upto(bs, m, n).len() ==> (#[trigger] edges_upto(bs, m, n)[i]).0 < n,
            keys_unique(edges_upto(bs, m, n)),
            no_dangling_edges(edges_upto(bs, m, n), bs.len() as int),
        decreases n,
    {
        if n > 0 {
            Self::lemma_edges_upto(bs, m, n - 1);
            let k = n - 1;
            let s = succs(bs, m, k);
            assert forall|j: int| 0 <= j < s.len() implies s[j] < bs.len() by {
                if bs[k].last().spec_target() is Some {
                    assert(m.contains_key(bs[k].last().spec_target()->Some_0));
                }
            }
            let prev = edges_upto(bs, m, k);
            let es = edges_upto(bs, m, n);
            if s.len() > 0 {
                assert(es == prev.push((k as u64, s)));
                assert forall|a: int, b: int|
                    0 <= a < es.len() && 0 <= b < es.len() && a != b implies es[a].0 != es[b].0 by {
                    if a < prev.len() && b < prev.len() {
                        assert(es[a] == prev[a] && es[b] == prev[b]);
                    } else if a < prev.len() {
                        assert(es[a] == prev[a]);
                        assert(prev[a].0 < k);
                        assert(es[b].0 == k);
                    } else {
                        assert(es[b] == prev[b]);
                        assert(prev[b].0 < k);
                        assert(es[a].0 == k);
                    }
                }
                assert forall|i: int, j: int|
                    0 <= i < es.len() && 0 <= j < es[i].1.len() implies (#[trigger] es[i].1[j])
                        < bs.len() by {
                    if i < prev.len() {
                        assert(es[i] == prev[i]);
                    }
                }
            }
        }
    }

    /// Builds the edges between the blocks of a function: an edge to the
    /// block that a final jump or branch names, then an edge to the next
    /// block where control can fall through to it. Every jump target must
    /// start a block (see `try_from_bb_function`).
    pub fn from_bb_function(bb_function: BBFunction) -> (r: ControlFlowGraph)
        requires
            well_split(block_seqs(bb_function.spec_bbs())),
            labels_are_positions(bb_function.spec_bbs()),
            labels_mapped(block_seqs(bb_function.spec_bbs()), bb_function.spec_label_map()),
            targets_resolved(block_seqs(bb_function.spec_bbs()), bb_function.spec_label_map()),
        ensures
            r.spec_bbs() == bb_function.spec_bbs(),
            r.spec_edges() == edges_upto(
                block_seqs(bb_function.spec_bbs()),
                bb_function.spec_label_map(),
                bb_function.spec_bbs().len() as int,
            ),
            r.wf(),
    {
        let ghost bs = block_seqs(bb_function.spec_bbs());
        let ghost m = bb_function.spec_label_map();
        let (bbs, map) = bb_function.into_parts();
        let mut bb_map = edge_map_new();
        let n = bbs.len();
        let mut k: usize = 0;
        while k < n
            invariant
                n == bbs.len(),
                n <= u64::MAX,
                bs == block_seqs(bbs@),
                bs == block_seqs(bb_function.spec_bbs()),
                bbs@ == bb_function.spec_bbs(),
                m == bb_function.spec_label_map(),
                m == map@,
                targets_resolved(bs, m),
                well_split(bs),
                labels_mapped(bs, m),
                0 <= k <= n,
                edge_entries(bb_map) == edges_upto(bs, m, k as int),
                forall|i: int| 0 <= i < edges_upto(bs, m, k as int).len() ==> (
                #[trigger] edges_upto(bs, m, k as int)[i]).0 < k,
                forall|j: int|
                    0 <= j < k && (#[trigger] bs[j]).last().spec_target() is Some ==> m.contains_key(
                        bs[j].last().spec_target()->Some_0,
                    ),
            decreases n - k,
        {
            assert(bs[k as int] == bbs@[k as int].spec_seq());
            let last = bbs[k].last();
            let mut s: Vec<u64> = Vec::new();
            match last.get_label_if_branch_or_jump() {
                Some(l) => {
                    assert(bs[k as int].last().spec_target() == Some(l.0));
                    s.push(*map.get(&l.0).unwrap());
                },
                None => {},
            }
            if k + 1 < n && !last.is_unconditional_branch() {
                s.push((k + 1) as u64);
            }
            assert(s@ =~= succs(bs, m, k as int));
            if s.len() > 0 {
                edge_map_insert(&mut bb_map, k as u64, s);
            }
            k = k + 1;
        }
        proof {
            Self::lemma_edges_upto(bs, m, n as int);
        }
        ControlFlowGraph { bb_map, bbs }
    }

    /// The graph of `from_bb_function`, or the jump target of the first
    /// block whose jump or branch goes to a label that starts no block.
    pub fn try_from_bb_function(bb_function: BBFunction) -> (r: Result<ControlFlowGraph, CfgError>)
        requires
            well_split(block_seqs(bb_function.spec_bbs())),
            labels_are_positions(bb_function.spec_bbs()),
            labels_mapped(block_seqs(bb_function.spec_bbs()), bb_function.spec_label_map()),
        ensures
            r is Ok <==> targets_resolved(
                block_seqs(bb_function.spec_bbs()),
                bb_function.spec_label_map(),
            ),
            r is Ok ==> {
                let cfg = r->Ok_0;
                let bs = block_seqs(bb_function.spec_bbs());
                &&& cfg.spec_bbs() == bb_function.spec_bbs()
                &&& cfg.spec_edges() == edges_upto(
                    bs,
                    bb_function.spec_label_map(),
                    bs.len() as int,
                )
                &&& cfg.wf()
            },
            r is Err ==> {
                let bs = block_seqs(bb_function.spec_bbs());
                let k = first_unresolved(bs, bb_function.spec_label_map(), 0);
                &&& 0 <= k < bs.len()
                &&& r->Err_0 == CfgError::UnresolvedJumpTarget(
                    bs[k].last().spec_target()->Some_0,
                )
            },
    {
        match first_unresolved_target(&bb_function) {
            Some(l) => Err(CfgError::UnresolvedJumpTarget(l)),
            None => Ok(Self::from_bb_function(bb_function)),
        }
    }

    /// The blocks in program order.
    pub fn basic_blocks(&self) -> (r: &Vec<ImmutableBasicBlock>)
        ensures
            r@ == self.spec_bbs(),
    {
        &self.bbs
    }

    /// The edge map: each block that has successors, with their labels.
    pub fn basic_block_map(&self) -> (r: Vec<(BBLabel, Vec<BBLabel>)>)
        ensures
            labelled_edges(r@, self.spec_edges()),
    {
        edge_list(&self.bb_map)
    }

    /// The successors of block `b`, if it has any.
    pub fn neighbors_of_bb(&self, b: BBLabel) -> (r: Option<Vec<u64>>)
        requires
            keys_unique(self.spec_edges()),
        ensures
            match r {
                Some(v) => v@ == lookup(self.spec_edges(), b.0),
                None => lookup(self.spec_edges(), b.0) == Seq::<u64>::empty(),
            },
    {
        let r = edge_map_get(&self.bb_map, b.0);
        proof {
            match &r {
                Some(v) => {
                    let i = choose|i: int|
                        0 <= i < self.spec_edges().len() && #[trigger] self.spec_edges()[i] == (
                        b.0,
                        v@,
                    );
                    lemma_lookup_entry(self.spec_edges(), i);
                },
                None => {
                    lemma_lookup_absent(self.spec_edges(), b.0);
                },
            }
        }
        r
    }

    /// The edge map and the blocks.
    pub fn into_parts(self) -> (r: (LinkedHashMap<u64, Vec<u64>>, Vec<ImmutableBasicBlock>))
        ensures
            edge_entries(r.0) == self.spec_edges(),
            r.1@ == self.spec_bbs(),
    {
        (self.bb_map, self.bbs)
    }
}

/// No edge of a well-formed graph names a block that the graph does not
/// hold: every key of the edge map, and every successor listed in it, is
/// the label of one of its blocks.
pub proof fn lemma_no_dangling_edges(cfg: &ControlFlowGraph)
    requires
        cfg.wf(),
    ensures
        forall|i: int| 0 <= i < cfg.spec_edges().len() ==> (#[trigger] cfg.spec_edges()[i]).0 < cfg.spec_bbs().len(),
        forall|i: int, j: int|
            0 <= i < cfg.spec_edges().len() && 0 <= j < cfg.spec_edges()[i].1.len() ==> (
            #[trigger] cfg.spec_edges()[i].1[j]) < cfg.spec_bbs().len(),
        forall|k: int| 0 <= k < cfg.spec_bbs().len() ==> (#[trigger] cfg.spec_bbs()[k]).spec_label() == BBLabel(k as u64),
{
}

/// Every jump or branch of the code goes to a label that the code holds.
pub open spec fn jumps_resolved(code: Seq<ThreeAddressCode>) -> bool {
    forall|p: int|
        0 <= p < code.len() && (#[trigger] code[p]).spec_target() is Some ==> has_label(
            code,
            code[p].spec_target()->Some_0,
        )
}

/// The code holds the label `l`.
pub open spec fn has_label(code: Seq<ThreeAddressCode>, l: u64) -> bool {
    exists|q: int| 0 <= q < code.len() && code[q] == ThreeAddressCode::Label(Label(l))
}

/// Each instruction of a block is in the concatenation.
proof fn lemma_concat_member(bs: Seq<Seq<ThreeAddressCode>>, k: int, j: int)
    requires
        0 <= k < bs.len(),
        0 <= j < bs[k].len(),
    ensures
        exists|p: int| 0 <= p < concat(bs).len() && concat(bs)[p] == bs[k][j],
    decreases bs.len(),
{
    let d = bs.drop_last();
    if k == bs.len() - 1 {
        let p = concat(d).len() + j;
        assert(concat(bs)[p] == bs[k][j]);
    } else {
        assert(d[k] == bs[k]);
        lemma_concat_member(d, k, j);
        let p = choose|p: int| 0 <= p < concat(d).len() && concat(d)[p] == d[k][j];
        assert(concat(bs)[p] == concat(d)[p]);
    }
}

/// Each instruction of the concatenation comes from a block.
proof fn lemma_concat_origin(bs: Seq<Seq<ThreeAddressCode>>, p: int)
    requires
        0 <= p < concat(bs).len(),
    ensures
        exists|k: int, j: int| 0 <= k < bs.len() && 0 <= j < bs[k].len() && bs[k][j] == concat(bs)[p],
    decreases bs.len(),
{
    let d = bs.drop_last();
    if p < concat(d).len() {
        lemma_concat_origin(d, p);
        let (k, j) = choose|k: int, j: int|
            0 <= k < d.len() && 0 <= j < d[k].len() && d[k][j] == concat(d)[p];
        assert(bs[k] == d[k]);
    } else {
        let j = p - concat(d).len();
        assert(bs[bs.len() - 1][j] == concat(bs)[p]);
    }
}

/// A label starts a block exactly when the code holds it.
proof fn lemma_label_starts_block(bs: Seq<Seq<ThreeAddressCode>>, m: Map<u64, u64>, l: u64)
    requires
        well_split(bs),
        labels_mapped(bs, m),
    ensures
        m.contains_key(l) <==> has_label(concat(bs), l),
{
    let code = concat(bs);
    if m.contains_key(l) {
        let k = m[l] as int;
        lemma_concat_member(bs, k, 0);
    }
    if has_label(code, l) {
        let q = choose|q: int| 0 <= q < code.len() && code[q] == ThreeAddressCode::Label(Label(l));
        lemma_concat_origin(bs, q);
        let (k, j) = choose|k: int, j: int|
            0 <= k < bs.len() && 0 <= j < bs[k].len() && bs[k][j] == code[q];
        if j > 0 {
            assert(!bs[k][j].spec_is_label());
        }
        assert(bs[k][0] is Label);
    }
}

proof fn lemma_resolved_forward(bs: Seq<Seq<ThreeAddressCode>>, m: Map<u64, u64>)
    requires
        well_split(bs),
        labels_mapped(bs, m),
        jumps_resolved(concat(bs)),
    ensures
        targets_resolved(bs, m),
{
    let code = concat(bs);
    assert forall|k: int|
        0 <= k < bs.len() && (#[trigger] bs[k]).last().spec_target() is Some implies m.contains_key(
            bs[k].last().spec_target()->Some_0,
        ) by {
        assert(bs[k].len() > 0);
        lemma_concat_member(bs, k, bs[k].len() - 1);
        let p = choose|p: int| 0 <= p < code.len() && code[p] == bs[k][bs[k].len() - 1];
        assert(code[p].spec_target() is Some);
        lemma_label_starts_block(bs, m, bs[k].last().spec_target()->Some_0);
    }
}

proof fn lemma_resolved_backward(bs: Seq<Seq<ThreeAddressCode>>, m: Map<u64, u64>)
    requires
        well_split(bs),
        labels_mapped(bs, m),
        targets_resolved(bs, m),
    ensures
        jumps_resolved(concat(bs)),
{
    let code = concat(bs);
    assert forall|p: int| 0 <= p < code.len() && (#[trigger] code[p]).spec_target() is Some implies has_label(
        code,
        code[p].spec_target()->Some_0,
    ) by {
        lemma_concat_origin(bs, p);
        let (k, j) = choose|k: int, j: int|
            0 <= k < bs.len() && 0 <= j < bs[k].len() && bs[k][j] == code[p];
        lemma_target_ends_block(bs, k, j);
        assert(bs[k].last() == bs[k][j]);
        lemma_label_starts_block(bs, m, code[p].spec_target()->Some_0);
    }
}

/// In well-cut blocks, an instruction with a jump target ends its block.
proof fn lemma_target_ends_block(bs: Seq<Seq<ThreeAddressCode>>, k: int, j: int)
    requires
        well_split(bs),
        0 <= k < bs.len(),
        0 <= j < bs[k].len(),
        bs[k][j].spec_target() is Some,
    ensures
        j == bs[k].len() - 1,
{
    if j < bs[k].len() - 1 {
        let j1 = j + 1;
        assert(0 < j1 < bs[k].len());
        assert(!bs[k][j1].spec_is_label());
        assert(!bs[k][j1 - 1].spec_is_terminator());
        assert(bs[k][j1 - 1] == bs[k][j]);
        assert(bs[k][j].spec_is_terminator());
    }
}

impl ControlFlowGraph {
    /// The control-flow graph of a function's code: the code cut into
    /// basic blocks, and the edges between them. Every jump or branch must
    /// go to a label that the code holds (see `try_from_code`).
    pub fn from_code(code: Vec<ThreeAddressCode>) -> (r: ControlFlowGraph)
        requires
            jumps_resolved(code@),
        ensures
            r.wf(),
            concat(block_seqs(r.spec_bbs())) == code@,
    {
        let f = BBFunction::from_code(code);
        proof {
            lemma_resolved_forward(block_seqs(f.spec_bbs()), f.spec_label_map());
        }
        Self::from_bb_function(f)
    }

    /// The graph of `from_code`, or a jump target that the code does not
    /// hold as a label.
    pub fn try_from_code(code: Vec<ThreeAddressCode>) -> (r: Result<ControlFlowGraph, CfgError>)
        ensures
            r is Ok <==> jumps_resolved(code@),
            r is Ok ==> {
                let cfg = r->Ok_0;
                &&& cfg.wf()
                &&& concat(block_seqs(cfg.spec_bbs())) == code@
            },
            r is Err ==> {
                let l = r->Err_0->UnresolvedJumpTarget_0;
                &&& !has_label(code@, l)
                &&& exists|p: int|
                    0 <= p < code@.len() && (#[trigger] code@[p]).spec_target() == Some(l)
            },
    {
        let ghost c = code@;
        let f = BBFunction::from_code(code);
        let ghost bs = block_seqs(f.spec_bbs());
        let ghost m = f.spec_label_map();
        let r = Self::try_from_bb_function(f);
        proof {
            if r is Ok {
                lemma_resolved_backward(bs, m);
            } else {
                if jumps_resolved(c) {
                    lemma_resolved_forward(bs, m);
                }
                let k = first_unresolved(bs, m, 0);
                lemma_first_unresolved(bs, m, 0);
                assert(bs[k].len() > 0);
                lemma_concat_member(bs, k, bs[k].len() - 1);
                lemma_label_starts_block(bs, m, bs[k].last().spec_target()->Some_0);
            }
        }
        r
    }
}

/// The first unresolved block is unresolved, when there is one.
proof fn lemma_first_unresolved(bs: Seq<Seq<ThreeAddressCode>>, m: Map<u64, u64>, k: int)
    requires
        0 <= k,
    ensures
        first_unresolved(bs, m, k) < bs.len() ==> {
            let f = first_unresolved(bs, m, k);
            &&& k <= f
            &&& bs[f].last().spec_target() is Some
            &&& !m.contains_key(bs[f].last().spec_target()->Some_0)
        },
    decreases bs.len() - k,
{
    if k < bs.len() {
        lemma_first_unresolved(bs, m, k + 1);
    }
}

} // verus!
