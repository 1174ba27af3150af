//! Partition of a programme into basic blocks.

use vstd::prelude::*;

use crate::bpf::instruction::{BpfInsn, Opcode};

verus! {

#[derive(Debug)]
pub struct BasicBlock {
    pub start: usize,
    pub end: usize,
}

impl BasicBlock {
    pub fn len(&self) -> (n: usize)
        requires
            self.start <= self.end,
        ensures
            n == self.end - self.start,
    {
        self.end - self.start
    }

    pub fn is_empty(&self) -> (b: bool)
        ensures
            b == (self.start == self.end),
    {
        self.start == self.end
    }
}

/// Target index of a jump at `i` with offset `off`.
pub open spec fn jump_target(i: int, off: i16) -> int {
    i + 1 + off
}

/// Whether instruction `j` starts a basic block: the first instruction,
/// the target of a jump, or the instruction after a conditional jump.
pub open spec fn is_leader(insns: Seq<BpfInsn>, j: int) -> bool {
    ||| j == 0
    ||| exists|i: int| 0 <= i < insns.len() && #[trigger] leader_by(insns, i, j)
}

/// Whether instruction `i` makes `j` a leader.
pub open spec fn leader_by(insns: Seq<BpfInsn>, i: int, j: int) -> bool {
    match insns[i].opcode {
        Opcode::JmpJa => jump_target(i, insns[i].offset) == j,
        Opcode::Jmp64(_, _) | Opcode::Jmp32(_, _) => jump_target(i, insns[i].offset) == j || j == i + 1,
        _ => false,
    }
}

/// `blocks` is the partition of `0..n` cut at the leaders: consecutive,
/// non-empty, covering, and starting exactly at leaders.
pub open spec fn is_block_partition(insns: Seq<BpfInsn>, blocks: Seq<BasicBlock>) -> bool {
    let n = insns.len();
    if n == 0 {
        blocks.len() == 0
    } else {
        &&& blocks.len() > 0
        &&& blocks[0].start == 0
        &&& blocks.last().end == n
        &&& forall|k: int| 0 <= k < blocks.len() ==> #[trigger] blocks[k].start < blocks[k].end
        &&& forall|k: int| 0 <= k < blocks.len() - 1 ==> #[trigger] blocks[k].end == blocks[k + 1].start
        &&& forall|k: int| 0 <= k < blocks.len() ==> is_leader(insns, #[trigger] blocks[k].start as int)
        &&& forall|k: int, j: int| #![trigger blocks[k], is_leader(insns, j)]
            0 <= k < blocks.len() && blocks[k].start < j < blocks[k].end ==> !is_leader(insns, j)
    }
}

/// Split a programme into basic blocks.
pub fn find_basic_blocks(instructions: &[BpfInsn]) -> (blocks: Vec<BasicBlock>)
    ensures
        is_block_partition(instructions@, blocks@),
{
    let n = instructions.len();
    if n == 0 {
        return Vec::new();
    }
    let mut leaders: Vec<bool> = Vec::new();
    let mut k: usize = 0;
    while k < n
        invariant
            k <= n,
            leaders@.len() == k,
            forall|j: int| 0 <= j < k ==> #[trigger] leaders@[j] == (j == 0),
        decreases n - k,
    {
        leaders.push(k == 0);
        k += 1;
    }
    let mut i: usize = 0;
    while i < n
        invariant
            i <= n,
            n == instructions@.len(),
            leaders@.len() == n,
            forall|j: int| 0 <= j < n ==> #[trigger] leaders@[j] == (j == 0
                || exists|m: int| 0 <= m < i && #[trigger] leader_by(instructions@, m, j)),
        decreases n - i,
    {
        let insn = instructions[i];
        let target = i as i128 + 1 + insn.offset as i128;
        assert(insn == instructions@[i as int]);
        let ghost old_leaders = leaders@;
        match insn.opcode {
            Opcode::JmpJa => {
                if 0 <= target && target < n as i128 {
                    leaders.set(target as usize, true);
                }
            }
            Opcode::Jmp64(_, _) | Opcode::Jmp32(_, _) => {
                if 0 <= target && target < n as i128 {
                    leaders.set(target as usize, true);
                }
                if i + 1 < n {
                    leaders.set(i + 1, true);
                }
            }
            _ => {}
        }
        assert forall|j: int| 0 <= j < n implies #[trigger] leaders@[j] == (old_leaders[j]
            || leader_by(instructions@, i as int, j)) by {
        }
        assert forall|j: int| 0 <= j < n implies #[trigger] leaders@[j] == (j == 0
            || exists|m: int| 0 <= m < i + 1 && #[trigger] leader_by(instructions@, m, j)) by {
            if leader_by(instructions@, i as int, j) {
                assert(leaders@[j]);
            }
            if exists|m: int| 0 <= m < i + 1 && #[trigger] leader_by(instructions@, m, j) {
                let m = choose|m: int| 0 <= m < i + 1 && #[trigger] leader_by(instructions@, m, j);
                if m < i {
                    assert(old_leaders[j]);
                }
            }
        }
        i += 1;
    }
    assert forall|j: int| 0 <= j < n implies #[trigger] leaders@[j] == is_leader(instructions@, j) by {
        if exists|m: int| 0 <= m < instructions@.len() && #[trigger] leader_by(instructions@, m, j) {
            let m = choose|m: int| 0 <= m < instructions@.len() && #[trigger] leader_by(instructions@, m, j);
            assert(0 <= m < n);
        }
    }
    let mut blocks: Vec<BasicBlock> = Vec::new();
    let mut start: usize = 0;
    let mut j: usize = 1;
    while j < n
        invariant
            1 <= j <= n,
            n == instructions@.len(),
            leaders@.len() == n,
            forall|q: int| 0 <= q < n ==> #[trigger] leaders@[q] == is_leader(instructions@, q),
            start < j,
            is_leader(instructions@, start as int),
            forall|q: int| start < q < j ==> !is_leader(instructions@, q),
            blocks@.len() == 0 ==> start == 0,
            blocks@.len() > 0 ==> blocks@[0].start == 0 && blocks@.last().end == start,
            forall|k: int| 0 <= k < blocks@.len() ==> #[trigger] blocks@[k].start < blocks@[k].end,
            forall|k: int| 0 <= k < blocks@.len() - 1 ==> #[trigger] blocks@[k].end == blocks@[k + 1].start,
            forall|k: int| 0 <= k < blocks@.len() ==> is_leader(instructions@, #[trigger] blocks@[k].start as int),
            forall|k: int, q: int| #![trigger blocks@[k], is_leader(instructions@, q)]
                0 <= k < blocks@.len() && blocks@[k].start < q < blocks@[k].end ==> !is_leader(instructions@, q),
        decreases n - j,
    {
        if leaders[j] {
            blocks.push(BasicBlock { start, end: j });
            start = j;
        }
        j += 1;
    }
    blocks.push(BasicBlock { start, end: n });
    blocks
}

} // verus!
