//! Stack-bounds analysis: a single forward pass that tracks which
//! registers hold frame, context or ring buffer pointers, checks that
//! every stack access lies in the 512-byte frame, and records each step
//! as a witness for the F* checker.

use vstd::prelude::*;

use crate::bpf::instruction::{AluOp, BpfInsn, MemWidth, Opcode, Reg, Source};
use crate::text::{bracketed, dec_int, dec_nat, join_with, lemma_join_push, push_char, push_dec_i64, push_dec_u64, push_str};

verus! {

/// Abstract register value of the stack-bounds analysis.
#[derive(Debug, Clone, Copy, PartialEq, Eq, Structural)]
pub enum AbsReg {
    FramePtr(i64),
    CtxPtr(i64),
    RingBufPtr(u64),
    Other,
}

/// A signed number as an F* argument: parenthesised when negative.
pub open spec fn paren_int(v: i64) -> Seq<char> {
    if v < 0 { seq!['('] + dec_int(v as int) + seq![')'] } else { dec_int(v as int) }
}

fn push_paren_int(s: &mut String, v: i64)
    ensures
        final(s)@ == old(s)@ + paren_int(v),
{
    if v < 0 {
        push_char(s, '(');
        push_dec_i64(s, v);
        push_char(s, ')');
        assert(final(s)@ =~= old(s)@ + paren_int(v));
    } else {
        push_dec_i64(s, v);
    }
}

impl AbsReg {
    /// F* syntax of the value.
    pub open spec fn text(self) -> Seq<char> {
        match self {
            AbsReg::FramePtr(off) => "AbsFramePtr "@ + paren_int(off),
            AbsReg::CtxPtr(off) => "AbsCtxPtr "@ + paren_int(off),
            AbsReg::RingBufPtr(id) => "AbsRingBufPtr "@ + dec_nat(id as nat),
            AbsReg::Other => "AbsOther"@,
        }
    }

    fn push_text(&self, s: &mut String)
        ensures
            final(s)@ == old(s)@ + self.text(),
    {
        match self {
            AbsReg::FramePtr(off) => {
                push_str(s, "AbsFramePtr ");
                push_paren_int(s, *off);
            },
            AbsReg::CtxPtr(off) => {
                push_str(s, "AbsCtxPtr ");
                push_paren_int(s, *off);
            },
            AbsReg::RingBufPtr(id) => {
                push_str(s, "AbsRingBufPtr ");
                push_dec_u64(s, *id);
            },
            AbsReg::Other => push_str(s, "AbsOther"),
        }
        assert(final(s)@ =~= old(s)@ + self.text());
    }

    pub fn to_fstar(&self) -> (out: String)
        ensures
            out@ == self.text(),
    {
        let mut s = String::new();
        self.push_text(&mut s);
        assert(s@ =~= self.text());
        s
    }
}

/// Value of register `i` at programme entry: r10 the frame pointer, r1
/// the context, the rest other.
pub open spec fn default_reg(i: int) -> AbsReg {
    if i == 10 { AbsReg::FramePtr(0) } else if i == 1 { AbsReg::CtxPtr(0) } else { AbsReg::Other }
}

fn default_reg_of(i: u8) -> (r: AbsReg)
    ensures
        r == default_reg(i as int),
{
    if i == 10 { AbsReg::FramePtr(0) } else if i == 1 { AbsReg::CtxPtr(0) } else { AbsReg::Other }
}

/// Registers at programme entry.
pub open spec fn init_regs() -> Seq<AbsReg> {
    Seq::new(11, |i: int| default_reg(i))
}

/// Abstract values of the 11 registers.
#[derive(Debug, Clone)]
pub struct RegState {
    regs: [AbsReg; 11],
}

impl View for RegState {
    type V = Seq<AbsReg>;

    closed spec fn view(&self) -> Seq<AbsReg> {
        self.regs@
    }
}

/// The F* list entry of register `i`.
pub open spec fn entry_text(i: int, r: AbsReg) -> Seq<char> {
    seq!['('] + dec_nat(i as nat) + ", "@ + r.text() + seq![')']
}

/// The list entries of the first `k` registers that differ from their
/// entry values.
pub open spec fn state_entries(regs: Seq<AbsReg>, k: int) -> Seq<Seq<char>>
    decreases k,
{
    if k <= 0 {
        Seq::empty()
    } else if regs[k - 1] != default_reg(k - 1) {
        state_entries(regs, k - 1).push(entry_text(k - 1, regs[k - 1]))
    } else {
        state_entries(regs, k - 1)
    }
}

/// F* syntax of a register state: the registers that differ from their
/// entry values, as `[(i, v); ...]`.
pub open spec fn state_text(regs: Seq<AbsReg>) -> Seq<char> {
    bracketed(state_entries(regs, 11), "; "@)
}

/// Join of two register values: kept when both agree, else other.
pub open spec fn join_reg(a: AbsReg, b: AbsReg) -> AbsReg {
    match (a, b) {
        (AbsReg::FramePtr(x), AbsReg::FramePtr(y)) => if x == y { a } else { AbsReg::Other },
        (AbsReg::CtxPtr(x), AbsReg::CtxPtr(y)) => if x == y { a } else { AbsReg::Other },
        (AbsReg::RingBufPtr(x), AbsReg::RingBufPtr(y)) => if x == y { a } else { AbsReg::Other },
        _ => AbsReg::Other,
    }
}

/// Join of two register states; r10 stays the frame pointer.
pub open spec fn join_regs(a: Seq<AbsReg>, b: Seq<AbsReg>) -> Seq<AbsReg> {
    Seq::new(11, |i: int| if i == 10 { AbsReg::FramePtr(0) } else { join_reg(a[i], b[i]) })
}

impl RegState {
    pub fn init() -> (r: Self)
        ensures
            r@ == init_regs(),
    {
        let r = RegState {
            regs: [
                AbsReg::Other, AbsReg::CtxPtr(0), AbsReg::Other, AbsReg::Other, AbsReg::Other, AbsReg::Other,
                AbsReg::Other, AbsReg::Other, AbsReg::Other, AbsReg::Other, AbsReg::FramePtr(0),
            ],
        };
        assert(r@ =~= init_regs());
        r
    }

    pub fn get(&self, reg: u8) -> (r: &AbsReg)
        requires
            reg < 11,
        ensures
            *r == self@[reg as int],
    {
        &self.regs[reg as usize]
    }

    pub fn set(&mut self, reg: u8, val: AbsReg)
        requires
            reg < 11,
        ensures
            final(self)@ == old(self)@.update(reg as int, val),
    {
        self.regs[reg as usize] = val;
    }

    fn copy(&self) -> (r: RegState)
        ensures
            r@ == self@,
    {
        RegState { regs: self.regs }
    }

    /// Appends the F* syntax of the state (see `state_text`).
    fn push_fstar(&self, s: &mut String)
        ensures
            final(s)@ == old(s)@ + state_text(self@),
    {
        let ghost start = s@;
        push_char(s, '[');
        let ghost mut parts: Seq<Seq<char>> = Seq::empty();
        let mut count: usize = 0;
        let mut i: u8 = 0;
        while i < 11
            invariant
                i <= 11,
                self@.len() == 11,
                parts == state_entries(self@, i as int),
                count == parts.len(),
                count <= i,
                s@ == start + seq!['['] + join_with(parts, "; "@),
            decreases 11 - i,
        {
            let v = self.regs[i as usize];
            if v != default_reg_of(i) {
                let ghost before = s@;
                if count > 0 {
                    push_str(s, "; ");
                }
                push_char(s, '(');
                push_dec_u64(s, i as u64);
                push_str(s, ", ");
                v.push_text(s);
                push_char(s, ')');
                proof {
                    lemma_join_push(parts, "; "@, entry_text(i as int, v));
                    if count > 0 {
                        assert(s@ =~= before + "; "@ + entry_text(i as int, v));
                    } else {
                        assert(s@ =~= before + entry_text(i as int, v));
                    }
                    parts = parts.push(entry_text(i as int, v));
                }
                count = count + 1;
            }
            i = i + 1;
        }
        push_char(s, ']');
        assert(s@ =~= start + state_text(self@));
    }

    /// F* syntax of the state (see `state_text`).
    pub fn to_fstar(&self) -> (out: String)
        ensures
            out@ == state_text(self@),
    {
        let mut s = String::new();
        self.push_fstar(&mut s);
        assert(s@ =~= state_text(self@));
        s
    }

    fn join(&self, other: &RegState) -> (r: RegState)
        ensures
            r@ == join_regs(self@, other@),
    {
        let mut regs = [AbsReg::Other; 11];
        let mut i: usize = 0;
        while i < 10
            invariant
                i <= 10,
                regs@.len() == 11,
                forall|j: int| 0 <= j < i ==> #[trigger] regs@[j] == join_reg(self@[j], other@[j]),
            decreases 10 - i,
        {
            regs[i] = match (self.regs[i], other.regs[i]) {
                (AbsReg::FramePtr(a), AbsReg::FramePtr(b)) => if a == b { AbsReg::FramePtr(a) } else { AbsReg::Other },
                (AbsReg::CtxPtr(a), AbsReg::CtxPtr(b)) => if a == b { AbsReg::CtxPtr(a) } else { AbsReg::Other },
                (AbsReg::RingBufPtr(a), AbsReg::RingBufPtr(b)) => if a == b { AbsReg::RingBufPtr(a) } else { AbsReg::Other },
                _ => AbsReg::Other,
            };
            i = i + 1;
        }
        // r1 is not kept as the context pointer across joins: helper calls
        // clobber r1-r5, so the context is typically saved in r6-r9.
        regs[10] = AbsReg::FramePtr(0);
        let r = RegState { regs };
        assert(r@ =~= join_regs(self@, other@));
        r
    }
}

/// Branch targets with their saved register states, sorted by target.
pub open spec fn keys_sorted(e: Seq<(i32, Seq<AbsReg>)>) -> bool {
    forall|i: int, j: int| 0 <= i < j < e.len() ==> #[trigger] e[i].0 < #[trigger] e[j].0
}

/// Position of target `k`, if present.
pub open spec fn tm_find(e: Seq<(i32, Seq<AbsReg>)>, k: i32) -> Option<int> {
    if exists|i: int| 0 <= i < e.len() && e[i].0 == k {
        Some(choose|i: int| 0 <= i < e.len() && e[i].0 == k)
    } else {
        None
    }
}

/// The state saved for target `k`, if any.
pub open spec fn tm_get(e: Seq<(i32, Seq<AbsReg>)>, k: i32) -> Option<Seq<AbsReg>> {
    match tm_find(e, k) {
        Some(i) => Some(e[i].1),
        None => None,
    }
}

/// Where a new target `k` goes to keep the targets sorted.
pub open spec fn tm_slot(e: Seq<(i32, Seq<AbsReg>)>, k: i32) -> int {
    choose|p: int| #[trigger] is_slot(e, k, p)
}

/// Every target before `p` is below `k` and every one from `p` on above.
pub open spec fn is_slot(e: Seq<(i32, Seq<AbsReg>)>, k: i32, p: int) -> bool {
    0 <= p <= e.len() && (forall|i: int| 0 <= i < p ==> #[trigger] e[i].0 < k)
        && (forall|i: int| p <= i < e.len() ==> #[trigger] e[i].0 > k)
}

/// The targets with `k` saved as `v` (replacing any earlier state).
pub open spec fn tm_put(e: Seq<(i32, Seq<AbsReg>)>, k: i32, v: Seq<AbsReg>) -> Seq<(i32, Seq<AbsReg>)> {
    match tm_find(e, k) {
        Some(i) => e.update(i, (k, v)),
        None => e.insert(tm_slot(e, k), (k, v)),
    }
}

/// The targets without `k`.
pub open spec fn tm_remove(e: Seq<(i32, Seq<AbsReg>)>, k: i32) -> Seq<(i32, Seq<AbsReg>)> {
    match tm_find(e, k) {
        Some(i) => e.remove(i),
        None => e,
    }
}

/// F* syntax of the targets: `[(pc, state); ...]` in target order.
pub open spec fn targets_text(e: Seq<(i32, Seq<AbsReg>)>) -> Seq<char> {
    bracketed(Seq::new(e.len(), |i: int| seq!['('] + dec_int(e[i].0 as int) + ", "@ + state_text(e[i].1) + seq![')']), "; "@)
}

proof fn lemma_find_unique(e: Seq<(i32, Seq<AbsReg>)>, k: i32, i: int)
    requires
        keys_sorted(e),
        0 <= i < e.len(),
        e[i].0 == k,
    ensures
        tm_find(e, k) == Some(i),
{
    let j = choose|j: int| 0 <= j < e.len() && e[j].0 == k;
    if j < i {
        assert(e[j].0 < e[i].0);
    } else if i < j {
        assert(e[i].0 < e[j].0);
    }
}

proof fn lemma_slot_unique(e: Seq<(i32, Seq<AbsReg>)>, k: i32, p: int)
    requires
        0 <= p <= e.len(),
        forall|i: int| 0 <= i < p ==> #[trigger] e[i].0 < k,
        forall|i: int| p <= i < e.len() ==> #[trigger] e[i].0 > k,
    ensures
        tm_slot(e, k) == p,
{
    assert(is_slot(e, k, p));
    let q = tm_slot(e, k);
    assert(is_slot(e, k, q));
    if q < p {
        assert(e[q].0 < k);
    } else if p < q {
        assert(e[p].0 < k);
    }
}

/// Saved register states of branch targets, kept sorted by target.
#[derive(Debug, Clone)]
pub struct TargetMap {
    entries: Vec<(i32, RegState)>,
}

impl View for TargetMap {
    type V = Seq<(i32, Seq<AbsReg>)>;

    closed spec fn view(&self) -> Seq<(i32, Seq<AbsReg>)> {
        self.entries@.map_values(|e: (i32, RegState)| (e.0, e.1@))
    }
}

impl TargetMap {
    pub closed spec fn wf(&self) -> bool {
        keys_sorted(self@)
    }

    pub fn new() -> (m: Self)
        ensures
            m@ == Seq::<(i32, Seq<AbsReg>)>::empty(),
            m.wf(),
    {
        let m = TargetMap { entries: Vec::new() };
        assert(m@ =~= Seq::<(i32, Seq<AbsReg>)>::empty());
        m
    }

    fn find(&self, k: i32) -> (r: Option<usize>)
        requires
            self.wf(),
        ensures
            match r {
                Some(i) => tm_find(self@, k) == Some(i as int) && i < self@.len(),
                None => tm_find(self@, k) is None,
            },
    {
        let mut i: usize = 0;
        while i < self.entries.len()
            invariant
                i <= self.entries@.len(),
                self.wf(),
                self@.len() == self.entries@.len(),
                forall|j: int| 0 <= j < i ==> #[trigger] self@[j].0 != k,
            decreases self.entries@.len() - i,
        {
            if self.entries[i].0 == k {
                proof { lemma_find_unique(self@, k, i as int); }
                return Some(i);
            }
            i = i + 1;
        }
        None
    }

    fn copy(&self) -> (r: TargetMap)
        ensures
            r@ == self@,
    {
        let mut entries: Vec<(i32, RegState)> = Vec::new();
        let mut i: usize = 0;
        while i < self.entries.len()
            invariant
                i <= self.entries@.len(),
                entries@.len() == i,
                forall|j: int| 0 <= j < i ==> #[trigger] entries@[j].0 == self.entries@[j].0
                    && entries@[j].1@ == self.entries@[j].1@,
            decreases self.entries@.len() - i,
        {
            entries.push((self.entries[i].0, self.entries[i].1.copy()));
            i = i + 1;
        }
        let r = TargetMap { entries };
        assert(r@ =~= self@);
        r
    }

    fn get(&self, k: i32) -> (r: Option<RegState>)
        requires
            self.wf(),
        ensures
            match r {
                Some(v) => tm_get(self@, k) == Some(v@),
                None => tm_get(self@, k) is None,
            },
    {
        match self.find(k) {
            Some(i) => Some(self.entries[i].1.copy()),
            None => None,
        }
    }

    fn put(&mut self, k: i32, v: RegState)
        requires
            old(self).wf(),
        ensures
            final(self).wf(),
            final(self)@ == tm_put(old(self)@, k, v@),
    {
        match self.find(k) {
            Some(i) => {
                self.entries[i] = (k, v);
                assert(self@ =~= old(self)@.update(i as int, (k, v@)));
            },
            None => {
                let mut p: usize = 0;
                while p < self.entries.len() && self.entries[p].0 < k
                    invariant
                        p <= self.entries@.len(),
                        self@ == old(self)@,
                        self@.len() == self.entries@.len(),
                        forall|i: int| 0 <= i < p ==> #[trigger] self@[i].0 < k,
                    decreases self.entries@.len() - p,
                {
                    p = p + 1;
                }
                proof {
                    assert forall|i: int| p <= i < self@.len() implies #[trigger] self@[i].0 > k by {
                        if self@[i].0 <= k {
                            assert(self@[p as int].0 >= k);
                            assert(self@[p as int].0 <= self@[i].0);
                            assert(self@[i].0 != k);
                        }
                    }
                    lemma_slot_unique(self@, k, p as int);
                }
                self.entries.insert(p, (k, v));
                assert(self@ =~= old(self)@.insert(p as int, (k, v@)));
            },
        }
    }

    fn remove(&mut self, k: i32) -> (r: Option<RegState>)
        requires
            old(self).wf(),
        ensures
            final(self).wf(),
            final(self)@ == tm_remove(old(self)@, k),
            match r {
                Some(v) => tm_get(old(self)@, k) == Some(v@),
                None => tm_get(old(self)@, k) is None,
            },
    {
        match self.find(k) {
            Some(i) => {
                let (_, v) = self.entries.remove(i);
                assert(self@ =~= old(self)@.remove(i as int));
                Some(v)
            },
            None => None,
        }
    }

    /// F* syntax of the targets (see `targets_text`).
    #[verifier::spinoff_prover]
    #[verifier::rlimit(30)]
    pub fn to_fstar(&self) -> (out: String)
        ensures
            out@ == targets_text(self@),
    {
        let mut s = String::new();
        push_char(&mut s, '[');
        let ghost parts = Seq::new(self@.len(), |i: int| seq!['('] + dec_int(self@[i].0 as int) + ", "@ + state_text(self@[i].1) + seq![')']);
        let mut i: usize = 0;
        while i < self.entries.len()
            invariant
                i <= self.entries@.len(),
                self@.len() == self.entries@.len(),
                parts.len() == self@.len(),
                forall|j: int| 0 <= j < parts.len() ==> #[trigger] parts[j] == seq!['('] + dec_int(self@[j].0 as int) + ", "@ + state_text(self@[j].1) + seq![')'],
                s@ == seq!['['] + join_with(parts.take(i as int), "; "@),
            decreases self.entries@.len() - i,
        {
            let ghost before = s@;
            if i > 0 {
                push_str(&mut s, "; ");
            }
            push_char(&mut s, '(');
            push_dec_i64(&mut s, self.entries[i].0 as i64);
            push_str(&mut s, ", ");
            self.entries[i].1.push_fstar(&mut s);
            push_char(&mut s, ')');
            proof {
                assert(parts.take(i + 1) =~= parts.take(i as int).push(parts[i as int]));
                lemma_join_push(parts.take(i as int), "; "@, parts[i as int]);
                if i > 0 {
                    assert(s@ =~= before + "; "@ + parts[i as int]);
                } else {
                    assert(s@ =~= before + parts[i as int]);
                }
            }
            i = i + 1;
        }
        push_char(&mut s, ']');
        assert(parts.take(parts.len() as int) =~= parts);
        assert(s@ =~= targets_text(self@));
        s
    }
}

/// One step of the analysis, for the F* witness: the instruction and the
/// state and targets before it.
pub struct WitnessStep {
    pub pc: usize,
    pub insn_fstar: String,
    pub state_fstar: String,
    pub targets_fstar: String,
}

/// The F* assertion that checks a step.
pub open spec fn step_text(pc: usize, insn: Seq<char>, state: Seq<char>, targets: Seq<char>) -> Seq<char> {
    "let _ = assert_norm (Some? (check_insn_sb (to_abs_state_sb "@ + state + ") ("@ + insn + ") "@
        + dec_nat(pc as nat) + " (to_target_map_sb "@ + targets + ")))"@
}

impl WitnessStep {
    pub fn to_fstar(&self) -> (out: String)
        ensures
            out@ == step_text(self.pc, self.insn_fstar@, self.state_fstar@, self.targets_fstar@),
    {
        let mut s = String::new();
        push_str(&mut s, "let _ = assert_norm (Some? (check_insn_sb (to_abs_state_sb ");
        push_str(&mut s, self.state_fstar.as_str());
        push_str(&mut s, ") (");
        push_str(&mut s, self.insn_fstar.as_str());
        push_str(&mut s, ") ");
        push_dec_u64(&mut s, self.pc as u64);
        push_str(&mut s, " (to_target_map_sb ");
        push_str(&mut s, self.targets_fstar.as_str());
        push_str(&mut s, ")))");
        assert(s@ =~= step_text(self.pc, self.insn_fstar@, self.state_fstar@, self.targets_fstar@));
        s
    }
}

pub struct AnalysisResult {
    pub passed: bool,
    pub failing_pc: Option<usize>,
    pub steps: Vec<WitnessStep>,
}

/// Whether a `width`-byte access at `offset` lies in the 512-byte frame.
pub open spec fn stack_offset_ok(offset: int, width: int) -> bool {
    512 + offset >= 0 && 512 + offset + width <= 512
}

fn stack_offset_valid(offset: i64, width: u8) -> (b: bool)
    ensures
        b == stack_offset_ok(offset as int, width as int),
{
    let idx: i128 = 512 + offset as i128;
    idx >= 0 && idx + width as i128 <= 512
}

/// Whether an access through `base` is allowed: a stack access must stay
/// in the frame; other pointers are not checked here.
pub open spec fn mem_ok(base: AbsReg, insn_off: i16, w: MemWidth) -> bool {
    match base {
        AbsReg::FramePtr(ptr_off) =>
            stack_offset_ok(vstd::wrapping::i64_specs::wrapping_add(ptr_off, insn_off as i64) as int, w.bytes() as int),
        _ => true,
    }
}

fn check_mem_access(base: &AbsReg, insn_off: i16, w: MemWidth) -> (b: bool)
    ensures
        b == mem_ok(*base, insn_off, w),
{
    match base {
        AbsReg::FramePtr(ptr_off) => stack_offset_valid(ptr_off.wrapping_add(insn_off as i64), w.width_bytes()),
        _ => true,
    }
}

/// The jump offset of a jump instruction.
pub open spec fn branch_off(insn: BpfInsn) -> Option<i16> {
    if insn.opcode is Jmp64 || insn.opcode is Jmp32 || insn.opcode is JmpJa { Some(insn.offset) } else { None }
}

fn branch_offset(insn: &BpfInsn) -> (r: Option<i16>)
    ensures
        r == branch_off(*insn),
{
    match insn.opcode {
        Opcode::Jmp64(_, _) | Opcode::Jmp32(_, _) | Opcode::JmpJa => Some(insn.offset),
        _ => None,
    }
}

/// The state saved at a loop head: r0-r5 unknown, r6-r10 as at entry.
pub open spec fn loop_head_regs() -> Seq<AbsReg> {
    Seq::new(11, |i: int| if i <= 5 { AbsReg::Other } else { default_reg(i) })
}

/// Loop heads found among the first `k` instructions: each target of a
/// backward (or self) jump, with the loop-head state.
pub open spec fn loop_heads(insns: Seq<BpfInsn>, k: int) -> Seq<(i32, Seq<AbsReg>)>
    decreases k,
{
    if k <= 0 {
        Seq::empty()
    } else {
        let m = loop_heads(insns, k - 1);
        match branch_off(insns[k - 1]) {
            Some(off) => if k - 1 + 1 + off <= k - 1 { tm_put(m, (k - 1 + 1 + off) as i32, loop_head_regs()) } else { m },
            None => m,
        }
    }
}

/// Register value after adding (or, when `sub`, subtracting) an
/// immediate: pointers move (wrapping), anything else becomes other.
pub open spec fn moved(r: AbsReg, imm: i32, sub: bool) -> AbsReg {
    let f = |o: i64| if sub { vstd::wrapping::i64_specs::wrapping_sub(o, imm as i64) }
        else { vstd::wrapping::i64_specs::wrapping_add(o, imm as i64) };
    match r {
        AbsReg::FramePtr(off) => AbsReg::FramePtr(f(off)),
        AbsReg::CtxPtr(off) => AbsReg::CtxPtr(f(off)),
        _ => AbsReg::Other,
    }
}

/// Registers after a helper call: r0-r5 become other.
pub open spec fn clobbered(regs: Seq<AbsReg>) -> Seq<AbsReg> {
    Seq::new(11, |i: int| if i <= 5 { AbsReg::Other } else { regs[i] })
}

/// Effect of one instruction: the new registers and targets, and whether
/// the instruction's memory access (if any) is allowed. A forward jump
/// saves the state for its target, joined with any state saved there.
pub open spec fn sb_transfer(regs: Seq<AbsReg>, tm: Seq<(i32, Seq<AbsReg>)>, insn: BpfInsn, pc: int)
    -> (Seq<AbsReg>, Seq<(i32, Seq<AbsReg>)>, bool)
{
    let d = insn.dst.num() as int;
    let sr = insn.src.num() as int;
    match insn.opcode {
        Opcode::Alu64(op, Source::Reg) => (regs.update(d, if op is Mov { regs[sr] } else { AbsReg::Other }), tm, true),
        Opcode::Alu64(op, Source::Imm) => (regs.update(d, match op {
            AluOp::Add => moved(regs[d], insn.imm, false),
            AluOp::Sub => moved(regs[d], insn.imm, true),
            _ => AbsReg::Other,
        }), tm, true),
        Opcode::Alu32(_, _) | Opcode::LdImm64 => (regs.update(d, AbsReg::Other), tm, true),
        Opcode::Ldx(w) => if mem_ok(regs[sr], insn.offset, w) { (regs.update(d, AbsReg::Other), tm, true) } else { (regs, tm, false) },
        Opcode::Stx(w) | Opcode::St(w) => (regs, tm, mem_ok(regs[d], insn.offset, w)),
        Opcode::Jmp64(_, _) | Opcode::Jmp32(_, _) => {
            let t = pc + 1 + insn.offset;
            if t > pc {
                (regs, tm_put(tm, t as i32, match tm_get(tm, t as i32) {
                    Some(e) => join_regs(e, regs),
                    None => regs,
                }), true)
            } else {
                (regs, tm, true)
            }
        },
        Opcode::Call => (clobbered(regs), tm, true),
        Opcode::JmpJa | Opcode::Exit | Opcode::Unknown(_) => (regs, tm, true),
    }
}

/// The analysis after the first `k` instructions: registers, saved
/// targets, and whether every step so far was allowed. Before each
/// instruction the state saved for it (if any) is joined in and removed.
pub open spec fn sb_run(insns: Seq<BpfInsn>, k: int) -> (Seq<AbsReg>, Seq<(i32, Seq<AbsReg>)>, bool)
    decreases k,
{
    if k <= 0 {
        (init_regs(), loop_heads(insns, insns.len() as int), true)
    } else {
        let prev = sb_run(insns, k - 1);
        if !prev.2 {
            prev
        } else {
            let pc = k - 1;
            let merged = match tm_get(prev.1, pc as i32) {
                Some(saved) => (join_regs(prev.0, saved), tm_remove(prev.1, pc as i32)),
                None => (prev.0, prev.1),
            };
            sb_transfer(merged.0, merged.1, insns[pc], pc)
        }
    }
}

/// Once the analysis has failed it stays failed.
pub proof fn lemma_run_fails_on(insns: Seq<BpfInsn>, k: int, j: int)
    requires
        0 <= k <= j,
        !sb_run(insns, k).2,
    ensures
        !sb_run(insns, j).2,
    decreases j - k,
{
    if k < j {
        lemma_run_fails_on(insns, k, j - 1);
    }
}

/// A memory access through a frame pointer at `o`, with instruction offset
/// `off` and width `w`, is allowed exactly when it lies in the 512-byte
/// frame: `-512 <= o + off` and `o + off + w <= 0`.
pub proof fn lemma_frame_access_allowed(
    regs: Seq<AbsReg>,
    tm: Seq<(i32, Seq<AbsReg>)>,
    insn: BpfInsn,
    pc: int,
    w: MemWidth,
    o: i64,
)
    requires
        insn.opcode == Opcode::St(w) || insn.opcode == Opcode::Stx(w) || insn.opcode == Opcode::Ldx(w),
        regs[(if insn.opcode is Ldx { insn.src } else { insn.dst }).num() as int] == AbsReg::FramePtr(o),
        i64::MIN <= o + insn.offset <= i64::MAX,
    ensures
        sb_transfer(regs, tm, insn, pc).2 <==> (-512 <= o + insn.offset && o + insn.offset + w.bytes() <= 0),
{
}

/// A first instruction that stores or loads through r10 outside the
/// 512-byte frame fails the analysis there, and it stays failed.
pub proof fn lemma_first_access_out_of_frame(insns: Seq<BpfInsn>, w: MemWidth, j: int)
    requires
        insns.len() > 0,
        ((insns[0].opcode == Opcode::St(w) || insns[0].opcode == Opcode::Stx(w)) && insns[0].dst == Reg::R10)
            || (insns[0].opcode == Opcode::Ldx(w) && insns[0].src == Reg::R10),
        !(-512 <= insns[0].offset && insns[0].offset + w.bytes() <= 0),
        1 <= j,
    ensures
        !sb_run(insns, j).2,
{
    let prev = sb_run(insns, 0);
    let merged = match tm_get(prev.1, 0i32) {
        Some(saved) => (join_regs(prev.0, saved), tm_remove(prev.1, 0i32)),
        None => (prev.0, prev.1),
    };
    assert(merged.0[10] == AbsReg::FramePtr(0));
    assert(Reg::R10.num() == 10);
    lemma_frame_access_allowed(merged.0, merged.1, insns[0], 0, w, 0);
    assert(!sb_run(insns, 1).2);
    lemma_run_fails_on(insns, 1, j);
}

/// Apply one instruction (see `sb_transfer`).
fn transfer(state: &mut RegState, targets: &mut TargetMap, insn: &BpfInsn, pc: usize) -> (ok: bool)
    requires
        old(targets).wf(),
        pc <= 0x7FFF_0000,
    ensures
        final(targets).wf(),
        (final(state)@, final(targets)@, ok) == sb_transfer(old(state)@, old(targets)@, *insn, pc as int),
{
    let dst = insn.dst.index();
    let src = insn.src.index();
    match insn.opcode {
        Opcode::Alu64(op, Source::Reg) => {
            let v = if op == AluOp::Mov { *state.get(src) } else { AbsReg::Other };
            state.set(dst, v);
            true
        },
        Opcode::Alu64(op, Source::Imm) => {
            let v = match op {
                AluOp::Add => match state.get(dst) {
                    AbsReg::FramePtr(off) => AbsReg::FramePtr(off.wrapping_add(insn.imm as i64)),
                    AbsReg::CtxPtr(off) => AbsReg::CtxPtr(off.wrapping_add(insn.imm as i64)),
                    _ => AbsReg::Other,
                },
                AluOp::Sub => match state.get(dst) {
                    AbsReg::FramePtr(off) => AbsReg::FramePtr(off.wrapping_sub(insn.imm as i64)),
                    AbsReg::CtxPtr(off) => AbsReg::CtxPtr(off.wrapping_sub(insn.imm as i64)),
                    _ => AbsReg::Other,
                },
                _ => AbsReg::Other,
            };
            state.set(dst, v);
            true
        },
        Opcode::Alu32(_, _) | Opcode::LdImm64 => {
            state.set(dst, AbsReg::Other);
            true
        },
        Opcode::Ldx(w) => {
            if !check_mem_access(state.get(src), insn.offset, w) {
                return false;
            }
            state.set(dst, AbsReg::Other);
            true
        },
        Opcode::Stx(w) | Opcode::St(w) => check_mem_access(state.get(dst), insn.offset, w),
        Opcode::Jmp64(_, _) | Opcode::Jmp32(_, _) => {
            let target_pc: i32 = pc as i32 + 1 + insn.offset as i32;
            if target_pc > pc as i32 {
                let v = match targets.get(target_pc) {
                    Some(existing) => existing.join(state),
                    None => state.copy(),
                };
                targets.put(target_pc, v);
            }
            true
        },
        Opcode::Call => {
            let mut r: u8 = 0;
            while r <= 5
                invariant
                    r <= 6,
                    state@.len() == 11,
                    forall|i: int| 0 <= i < 11 ==> #[trigger] state@[i] == (if i < r { AbsReg::Other } else { old(state)@[i] }),
                decreases 6 - r,
            {
                state.set(r, AbsReg::Other);
                r = r + 1;
            }
            assert(state@ =~= clobbered(old(state)@));
            true
        },
        Opcode::JmpJa | Opcode::Exit | Opcode::Unknown(_) => true,
    }
}

/// Run the stack-bounds analysis, recording a witness step per
/// instruction up to the first disallowed access.
pub fn analyse(instructions: &[BpfInsn]) -> (r: AnalysisResult)
    requires
        instructions@.len() <= 0x7FFF_0000,
    ensures
        r.steps@.len() <= instructions@.len(),
        forall|i: int| 0 <= i < r.steps@.len() ==> {
            let st = #[trigger] r.steps@[i];
            &&& st.pc == i
            &&& st.insn_fstar@ == instructions@[i].text()
            &&& st.state_fstar@ == state_text(sb_run(instructions@, i).0)
            &&& st.targets_fstar@ == targets_text(sb_run(instructions@, i).1)
        },
        r.passed == sb_run(instructions@, instructions@.len() as int).2,
        r.passed ==> r.failing_pc is None && r.steps@.len() == instructions@.len(),
        !r.passed ==> r.steps@.len() >= 1 && r.failing_pc == Some((r.steps@.len() - 1) as usize)
            && sb_run(instructions@, r.steps@.len() - 1).2 && !sb_run(instructions@, r.steps@.len() as int).2,
{
    let ghost insns = instructions@;
    let n = instructions.len();
    let mut targets = TargetMap::new();

    // Phase 1: find loop heads.
    let mut pc: usize = 0;
    while pc < n
        invariant
            n == insns.len(),
            insns == instructions@,
            n <= 0x7FFF_0000,
            pc <= n,
            targets.wf(),
            targets@ == loop_heads(insns, pc as int),
        decreases n - pc,
    {
        if let Some(off) = branch_offset(&instructions[pc]) {
            let target_pc: i32 = pc as i32 + 1 + off as i32;
            if target_pc <= pc as i32 {
                let mut widened = RegState::init();
                widened.set(0, AbsReg::Other);
                widened.set(1, AbsReg::Other);
                assert(widened@ =~= loop_head_regs());
                targets.put(target_pc, widened);
            }
        }
        pc = pc + 1;
    }

    // Phase 2: abstract interpretation.
    let mut state = RegState::init();
    let mut steps: Vec<WitnessStep> = Vec::new();
    let mut pc: usize = 0;
    while pc < n
        invariant
            n == insns.len(),
            insns == instructions@,
            n <= 0x7FFF_0000,
            pc <= n,
            targets.wf(),
            sb_run(insns, pc as int) == (state@, targets@, true),
            steps@.len() == pc,
            forall|i: int| 0 <= i < steps@.len() ==> {
                let st = #[trigger] steps@[i];
                &&& st.pc == i
                &&& st.insn_fstar@ == insns[i].text()
                &&& st.state_fstar@ == state_text(sb_run(insns, i).0)
                &&& st.targets_fstar@ == targets_text(sb_run(insns, i).1)
            },
        decreases n - pc,
    {
        let insn = &instructions[pc];
        let state_fstar = state.to_fstar();
        let targets_fstar = targets.to_fstar();
        // Merge the state saved for this instruction.
        if let Some(saved) = targets.remove(pc as i32) {
            state = state.join(&saved);
        }
        let ok = transfer(&mut state, &mut targets, insn, pc);
        steps.push(WitnessStep { pc, insn_fstar: insn.to_fstar(), state_fstar, targets_fstar });
        if !ok {
            proof { lemma_run_fails_on(insns, pc + 1, n as int); }
            return AnalysisResult { passed: false, failing_pc: Some(pc), steps };
        }
        pc = pc + 1;
    }
    AnalysisResult { passed: true, failing_pc: None, steps }
}

} // verus!
