//! Partition of a function's three-address code into basic blocks.
use vstd::prelude::*;

use std::collections::HashMap;

use crate::three_addr_code_ir::three_address_code::ThreeAddressCode;
use crate::three_addr_code_ir::Label;

verus! {

broadcast use vstd::std_specs::hash::group_hash_axioms;

/// The label of a basic block: its position in the function.
#[derive(Debug, Copy, Clone, PartialEq, Eq, Hash)]
pub struct BBLabel(pub u64);

/// A non-empty run of instructions that control enters only at the first
/// and leaves only at the last.
#[derive(Debug, PartialEq, Eq, Clone)]
pub struct ImmutableBasicBlock {
    label: BBLabel,
    seq: Vec<ThreeAddressCode>,
}

impl ImmutableBasicBlock {
    pub closed spec fn spec_label(&self) -> BBLabel {
        self.label
    }

    pub closed spec fn spec_seq(&self) -> Seq<ThreeAddressCode> {
        self.seq@
    }

    /// A block of the given instructions; a block is never empty.
    pub fn new(label: BBLabel, seq: Vec<ThreeAddressCode>) -> (r: ImmutableBasicBlock)
        requires
            seq.len() > 0,
        ensures
            r.spec_label() == label,
            r.spec_seq() == seq@,
    {
        ImmutableBasicBlock { label, seq }
    }

    pub fn label(&self) -> (r: BBLabel)
        ensures
            r == self.spec_label(),
    {
        self.label
    }

    pub fn seq(&self) -> (r: &Vec<ThreeAddressCode>)
        ensures
            r@ == self.spec_seq(),
    {
        &self.seq
    }

    /// The last instruction of a block.
    pub fn last(&self) -> (r: &ThreeAddressCode)
        requires
            self.spec_seq().len() > 0,
        ensures
            *r == self.spec_seq().last(),
    {
        &self.seq[self.seq.len() - 1]
    }

    pub fn into_parts(self) -> (r: (BBLabel, Vec<ThreeAddressCode>))
        ensures
            r.0 == self.spec_label(),
            r.1@ == self.spec_seq(),
    {
        (self.label, self.seq)
    }
}

/// The instructions of each block, in block order.
pub open spec fn block_seqs(bbs: Seq<ImmutableBasicBlock>) -> Seq<Seq<ThreeAddressCode>> {
    bbs.map_values(|b: ImmutableBasicBlock| b.spec_seq())
}

/// The instructions of all blocks, one block after the other.
pub open spec fn concat(bs: Seq<Seq<ThreeAddressCode>>) -> Seq<ThreeAddressCode>
    decreases bs.len(),
{
    if bs.len() == 0 {
        Seq::empty()
    } else {
        concat(bs.drop_last()) + bs.last()
    }
}

/// The blocks are basic blocks cut at exactly the right places: none is
/// empty; inside a block no instruction is a label and none follows a
/// branch, jump or return; and each block after the first starts with a
/// label or follows a block that ends in a branch, jump or return.
pub open spec fn well_split(bs: Seq<Seq<ThreeAddressCode>>) -> bool {
    &&& forall|k: int| 0 <= k < bs.len() ==> #[trigger] bs[k].len() > 0
    &&& forall|k: int, j: int|
        0 <= k < bs.len() && 0 < j < bs[k].len() ==> !(#[trigger] bs[k][j]).spec_is_label()
            && !bs[k][j - 1].spec_is_terminator()
    &&& forall|k: int|
        0 < k < bs.len() ==> (#[trigger] bs[k])[0].spec_is_label() || bs[k
            - 1].last().spec_is_terminator()
}

/// The map sends each label that starts a block to that block, and
/// holds no other label.
pub open spec fn labels_mapped(bs: Seq<Seq<ThreeAddressCode>>, m: Map<u64, u64>) -> bool {
    &&& forall|l: u64|
        #[trigger] m.contains_key(l) ==> m[l] < bs.len() && bs[m[l] as int].len() > 0
            && bs[m[l] as int][0] == ThreeAddressCode::Label(Label(l))
    &&& forall|k: int|
        0 <= k < bs.len() && bs[k].len() > 0 && (#[trigger] bs[k][0]) is Label ==> m.contains_key(
            bs[k][0]->Label_0.0,
        )
}

/// Each block's label is its position.
pub open spec fn labels_are_positions(bbs: Seq<ImmutableBasicBlock>) -> bool {
    forall|k: int| 0 <= k < bbs.len() ==> (#[trigger] bbs[k]).spec_label() == BBLabel(k as u64)
}

/// A function's code cut into basic blocks, with the map from each jump
/// target to the block that it starts.
#[derive(Debug)]
pub struct BBFunction {
    bbs: Vec<ImmutableBasicBlock>,
    tac_label_to_bb_label_map: HashMap<u64, u64>,
}

impl BBFunction {
    pub closed spec fn spec_bbs(&self) -> Seq<ImmutableBasicBlock> {
        self.bbs@
    }

    pub closed spec fn spec_label_map(&self) -> Map<u64, u64> {
        self.tac_label_to_bb_label_map@
    }

    /// The partition of `code` into basic blocks.
    pub fn from_code(code: Vec<ThreeAddressCode>) -> (r: BBFunction)
        ensures
            concat(block_seqs(r.spec_bbs())) == code@,
            well_split(block_seqs(r.spec_bbs())),
            labels_are_positions(r.spec_bbs()),
            labels_mapped(block_seqs(r.spec_bbs()), r.spec_label_map()),
    {
        let ghost orig = code@;
        let mut rest = code;
        let mut bbs: Vec<ImmutableBasicBlock> = Vec::new();
        let mut current: Vec<ThreeAddressCode> = Vec::new();
        let mut map: HashMap<u64, u64> = HashMap::new();
        while rest.len() > 0
            invariant
                concat(block_seqs(bbs@)) + current@ + rest@ == orig,
                well_split(Self::with_open(block_seqs(bbs@), current@)),
                labels_are_positions(bbs@),
                labels_mapped(Self::with_open(block_seqs(bbs@), current@), map@),
                bbs.len() + current.len() + rest.len() <= orig.len(),
                bbs.len() > 0 ==> current.len() > 0,
            decreases rest.len(),
        {
            let ghost before = Self::with_open(block_seqs(bbs@), current@);
            let t = rest.remove(0);
            let ghost mut did_close = false;
            if current.len() > 0 && (t.is_label() || current[current.len() - 1].is_bb_terminator()) {
                let blk = ImmutableBasicBlock { label: BBLabel(bbs.len() as u64), seq: current };
                proof {
                    Self::lemma_close(block_seqs(bbs@), blk);
                }
                bbs.push(blk);
                current = Vec::new();
                proof {
                    did_close = true;
                    assert(block_seqs(bbs@) =~= before);
                    assert(Self::with_open(block_seqs(bbs@), current@) =~= before);
                }
            }
            let ghost mid = Self::with_open(block_seqs(bbs@), current@);
            let ghost cur_before = current@;
            if let ThreeAddressCode::Label(l) = &t {
                map.insert(l.0, bbs.len() as u64);
            }
            current.push(t);
            proof {
                let now = Self::with_open(block_seqs(bbs@), current@);
                if cur_before.len() == 0 {
                    assert(current@ =~= seq![t]);
                    assert(mid == block_seqs(bbs@));
                    assert(now =~= mid.push(seq![t]));
                } else {
                    assert(now =~= mid.drop_last().push(cur_before.push(t)));
                }
                assert(concat(block_seqs(bbs@)) + current@ + rest@ =~= orig);
                assert(forall|k: int| 0 <= k < now.len() ==> #[trigger] now[k].len() > 0);
                assert forall|k: int, j: int|
                    0 <= k < now.len() && 0 < j < now[k].len() implies !(#[trigger] now[k][j]).spec_is_label()
                        && !now[k][j - 1].spec_is_terminator() by {
                    if k < now.len() - 1 || cur_before.len() > 0 && j < cur_before.len() {
                        assert(now[k][j] == mid[k][j]);
                        assert(now[k][j - 1] == mid[k][j - 1]);
                    }
                }
                assert forall|k: int|
                    0 < k < now.len() implies (#[trigger] now[k])[0].spec_is_label() || now[k
                        - 1].last().spec_is_terminator() by {
                    if k < now.len() - 1 {
                        assert(now[k] == mid[k]);
                        assert(now[k - 1] == mid[k - 1]);
                    } else if cur_before.len() > 0 {
                        assert(now[k][0] == mid[k][0]);
                        assert(now[k - 1] == mid[k - 1]);
                    } else {
                        assert(did_close);
                        assert(now[k - 1] == block_seqs(bbs@)[k - 1]);
                    }
                }
            }
        }
        let ghost last_state = Self::with_open(block_seqs(bbs@), current@);
        if current.len() > 0 {
            let blk = ImmutableBasicBlock { label: BBLabel(bbs.len() as u64), seq: current };
            proof {
                Self::lemma_close(block_seqs(bbs@), blk);
            }
            bbs.push(blk);
        }
        assert(block_seqs(bbs@) =~= last_state);
        BBFunction { bbs, tac_label_to_bb_label_map: map }
    }

    /// The blocks in program order.
    pub fn blocks(&self) -> (r: &Vec<ImmutableBasicBlock>)
        ensures
            r@ == self.spec_bbs(),
    {
        &self.bbs
    }

    /// The map from each jump target to the block that it starts.
    pub fn label_map(&self) -> (r: &HashMap<u64, u64>)
        ensures
            r@ == self.spec_label_map(),
    {
        &self.tac_label_to_bb_label_map
    }

    /// The blocks and the map from each jump target to its block.
    pub fn into_parts(self) -> (r: (Vec<ImmutableBasicBlock>, HashMap<u64, u64>))
        ensures
            r.0@ == self.spec_bbs(),
            r.1@ == self.spec_label_map(),
    {
        (self.bbs, self.tac_label_to_bb_label_map)
    }

    /// The closed blocks followed by the open one, if it holds anything.
    pub open spec fn with_open(
        closed: Seq<Seq<ThreeAddressCode>>,
        open: Seq<ThreeAddressCode>,
    ) -> Seq<Seq<ThreeAddressCode>> {
        if open.len() == 0 {
            closed
        } else {
            closed.push(open)
        }
    }

    proof fn lemma_close(closed: Seq<Seq<ThreeAddressCode>>, blk: ImmutableBasicBlock)
        ensures
            concat(closed.push(blk.spec_seq())) == concat(closed) + blk.spec_seq(),
    {
        assert(closed.push(blk.spec_seq()).drop_last() =~= closed);
    }
}

} // verus!
