//! The kernel-style checker: a path-sensitive abstract interpreter over
//! BPF instructions that tracks register types, scalar bounds and stack
//! initialisation, and reports the first safety violation on each path.

use vstd::prelude::*;

use std::collections::{HashMap, HashSet};

use crate::bpf::helpers::{get_helper, helper_args, helper_entry_matches, helper_name, helper_ret, ArgType, HelperReturn, HelperSpec};
use crate::bpf::instruction::{AluOp, BpfInsn, JmpOp, MemWidth, Opcode, Reg, Source};
use crate::elf::parser::{RelocTarget, SourceLoc};

use super::error::{error_at, error_code, opt_error, opt_loc, ErrorKind, ErrorKindView, ErrorView, VerifyError};
use super::state::{lemma_refine_sound, lemma_tnum_add_sound, lemma_tnum_and_sound, lemma_tnum_constant_unknown,
    lemma_tnum_or_sound, lemma_tnum_shift_sound, lemma_tnum_sub_sound, lemma_tnum_xor_sound, 
    in_frame, known_scalar, same_reg, null_state, resolve_nullable, unbounded, max_i, max_u, min_i, min_u,
    RegState, RegType, StackState, Tnum, VerifierState,
};

verus! {

broadcast use vstd::std_specs::hash::group_hash_axioms;

/// Maximum number of instructions the verifier will process across all paths
/// before declaring the programme too complex.
pub const COMPLEXITY_LIMIT: usize = 1_000_000;

/// Maximum BPF stack size in bytes.
pub const STACK_SIZE: i64 = 512;

/// Default map value size when there is no BTF information: the kernel's
/// maximum map value size (64 KiB).
pub const DEFAULT_MAP_VALUE_SIZE: u32 = 65536;

/// Default ring buffer reservation size when the actual size is unknown.
pub const DEFAULT_RINGBUF_SIZE: u32 = 65536;

/// Context size; permissive, since the real size depends on the
/// programme type.
pub const CTX_SIZE: i64 = 4096;

/// Number of explored states kept per instruction for pruning.
pub const MAX_STATES_PER_PC: usize = 32;

/// Result of verifying a BPF programme.
pub struct CheckResult {
    pub errors: Vec<VerifyError>,
    pub instructions_visited: usize,
}

impl CheckResult {
    pub fn passed(&self) -> (b: bool)
        ensures
            b == (self.errors@.len() == 0),
    {
        self.errors.len() == 0
    }
}

/// Source of fresh allocation ids for nullable pointers.
pub struct IdGen {
    next_id: usize,
}

impl IdGen {
    pub closed spec fn peek(self) -> usize {
        self.next_id
    }

    pub fn new() -> (g: IdGen)
        ensures
            g.peek() == 0,
    {
        IdGen { next_id: 0 }
    }

    /// Hands out the next id.
    pub fn next(&mut self) -> (id: usize)
        requires
            old(self).peek() < usize::MAX,
        ensures
            id == old(self).peek(),
            final(self).peek() == old(self).peek() + 1,
    {
        let id = self.next_id;
        self.next_id = self.next_id + 1;
        id
    }
}

/// Number of 8-byte slots an instruction occupies (LD_IMM64 takes two).
pub open spec fn slots(insn: BpfInsn) -> nat {
    if insn.opcode is LdImm64 { 2 } else { 1 }
}

/// Raw slot index of collapsed instruction `i`: the slots of all the
/// instructions before it.
pub open spec fn raw_pc(insns: Seq<BpfInsn>, i: int) -> nat
    decreases i,
{
    if i <= 0 { 0 } else { raw_pc(insns, i - 1) + slots(insns[i - 1]) }
}

/// Raw slot indices grow strictly, by one or two slots per instruction.
pub proof fn lemma_raw_pc_strict(insns: Seq<BpfInsn>, i: int, j: int)
    requires
        0 <= i < j,
    ensures
        raw_pc(insns, i) < raw_pc(insns, j),
        raw_pc(insns, j) <= raw_pc(insns, i) + 2 * (j - i),
    decreases j - i,
{
    if j > i + 1 {
        lemma_raw_pc_strict(insns, i, j - 1);
    }
}

proof fn lemma_raw_pc_bound(insns: Seq<BpfInsn>, i: int)
    requires
        0 <= i,
    ensures
        i <= raw_pc(insns, i) <= 2 * i,
    decreases i,
{
    if i > 0 {
        lemma_raw_pc_bound(insns, i - 1);
    }
}

/// The collapsed index whose raw slot is `r`, if any.
pub open spec fn collapsed_at(insns: Seq<BpfInsn>, r: int) -> Option<usize> {
    if exists|i: int| 0 <= i < insns.len() && raw_pc(insns, i) == r {
        Some((choose|i: int| 0 <= i < insns.len() && raw_pc(insns, i) == r) as usize)
    } else {
        None
    }
}

/// Only one instruction starts at a raw slot.
proof fn lemma_collapsed_at(insns: Seq<BpfInsn>, i: int)
    requires
        0 <= i < insns.len(),
        insns.len() <= usize::MAX,
    ensures
        collapsed_at(insns, raw_pc(insns, i) as int) == Some(i as usize),
{
    let r = raw_pc(insns, i) as int;
    assert(exists|k: int| 0 <= k < insns.len() && raw_pc(insns, k) == r);
    let k = choose|k: int| 0 <= k < insns.len() && raw_pc(insns, k) == r;
    if k < i {
        lemma_raw_pc_strict(insns, k, i);
    } else if i < k {
        lemma_raw_pc_strict(insns, i, k);
    }
}

/// Build the mapping between raw BPF PCs (LD_IMM64 counting as two slots)
/// and collapsed instruction indices (LD_IMM64 as one entry): entry `i` of
/// the vector is the raw PC of instruction `i`, and the map sends each raw
/// PC that starts an instruction to its index.
pub fn build_pc_map(instructions: &[BpfInsn]) -> (r: (Vec<usize>, HashMap<usize, usize>))
    requires
        instructions@.len() <= usize::MAX / 2,
    ensures
        r.0@.len() == instructions@.len(),
        forall|i: int| 0 <= i < instructions@.len() ==> #[trigger] r.0@[i] == raw_pc(instructions@, i),
        forall|k: usize| #[trigger] r.1@.contains_key(k) <==> collapsed_at(instructions@, k as int) is Some,
        forall|k: usize| #[trigger] r.1@.contains_key(k) ==> Some(r.1@[k]) == collapsed_at(instructions@, k as int),
{
    let mut collapsed_to_raw: Vec<usize> = Vec::new();
    let mut raw_to_collapsed: HashMap<usize, usize> = HashMap::new();
    let mut raw: usize = 0;
    let mut idx: usize = 0;
    let n = instructions.len();
    while idx < n
        invariant
            n == instructions@.len(),
            n <= usize::MAX / 2,
            idx <= n,
            raw == raw_pc(instructions@, idx as int),
            collapsed_to_raw@.len() == idx,
            forall|i: int| 0 <= i < idx ==> #[trigger] collapsed_to_raw@[i] == raw_pc(instructions@, i),
            forall|k: usize| #[trigger] raw_to_collapsed@.contains_key(k) <==>
                exists|i: int| 0 <= i < idx && raw_pc(instructions@, i) == k,
            forall|k: usize| #[trigger] raw_to_collapsed@.contains_key(k) ==>
                raw_to_collapsed@[k] < idx && raw_pc(instructions@, raw_to_collapsed@[k] as int) == k,
        decreases n - idx,
    {
        proof { lemma_raw_pc_bound(instructions@, idx as int); }
        collapsed_to_raw.push(raw);
        raw_to_collapsed.insert(raw, idx);
        let step: usize = match instructions[idx].opcode {
            Opcode::LdImm64 => 2,
            _ => 1,
        };
        proof {
            assert forall|k: usize| #[trigger] raw_to_collapsed@.contains_key(k) implies
                raw_to_collapsed@[k] < idx + 1 && raw_pc(instructions@, raw_to_collapsed@[k] as int) == k by {}
            assert forall|k: usize| #[trigger] raw_to_collapsed@.contains_key(k) <==>
                exists|i: int| 0 <= i < idx + 1 && raw_pc(instructions@, i) == k by {
                if raw_to_collapsed@.contains_key(k) && k != raw {
                    let i = choose|i: int| 0 <= i < idx && raw_pc(instructions@, i) == k;
                    assert(0 <= i < idx + 1 && raw_pc(instructions@, i) == k);
                }
                if exists|i: int| 0 <= i < idx + 1 && raw_pc(instructions@, i) == k {
                    let i = choose|i: int| 0 <= i < idx + 1 && raw_pc(instructions@, i) == k;
                    if i < idx {
                        assert(exists|i: int| 0 <= i < idx && raw_pc(instructions@, i) == k);
                    }
                }
            }
        }
        raw = raw + step;
        idx = idx + 1;
    }
    proof {
        assert forall|k: usize| #[trigger] raw_to_collapsed@.contains_key(k) implies
            Some(raw_to_collapsed@[k]) == collapsed_at(instructions@, k as int) by {
            lemma_collapsed_at(instructions@, raw_to_collapsed@[k] as int);
        }
    }
    (collapsed_to_raw, raw_to_collapsed)
}

/// Target of a branch at collapsed index `pc` with raw offset `offset`: the
/// instruction starting at raw slot `raw_pc(pc) + 1 + offset`.
pub open spec fn branch_target(insns: Seq<BpfInsn>, pc: int, offset: i16) -> Option<usize> {
    let t = raw_pc(insns, pc) + 1 + offset;
    if t < 0 { None } else { collapsed_at(insns, t) }
}

/// Resolve a branch target: given a branch at collapsed index `pc` with raw
/// offset `offset`, return the collapsed index of the target instruction.
fn resolve_branch_target(
    pc: usize,
    offset: i16,
    collapsed_to_raw: &[usize],
    raw_to_collapsed: &HashMap<usize, usize>,
    Ghost(insns): Ghost<Seq<BpfInsn>>,
) -> (r: Option<usize>)
    requires
        pc < collapsed_to_raw@.len(),
        collapsed_to_raw@.len() == insns.len(),
        insns.len() <= usize::MAX / 2,
        forall|i: int| 0 <= i < insns.len() ==> #[trigger] collapsed_to_raw@[i] == raw_pc(insns, i),
        forall|k: usize| #[trigger] raw_to_collapsed@.contains_key(k) <==> collapsed_at(insns, k as int) is Some,
        forall|k: usize| #[trigger] raw_to_collapsed@.contains_key(k) ==> Some(raw_to_collapsed@[k]) == collapsed_at(insns, k as int),
    ensures
        r == branch_target(insns, pc as int, offset),
{
    let raw = collapsed_to_raw[pc];
    let target: i128 = raw as i128 + 1 + offset as i128;
    if target < 0 {
        return None;
    }
    if target > usize::MAX as i128 {
        proof {
            if collapsed_at(insns, target as int) is Some {
                let i = choose|i: int| 0 <= i < insns.len() && raw_pc(insns, i) == target;
                lemma_raw_pc_bound(insns, i);
                lemma_raw_pc_bound(insns, pc as int);
                assert(false);
            }
        }
        return None;
    }
    let key = target as usize;
    match raw_to_collapsed.get(&key) {
        Some(v) => Some(*v),
        None => None,
    }
}


/// Whether the instruction is a jump with a target (JA or a conditional).
pub open spec fn is_jump(insn: BpfInsn) -> bool {
    insn.opcode is JmpJa || insn.opcode is Jmp64 || insn.opcode is Jmp32
}

/// `t` is the target of a jump at or after it (a loop head).
pub open spec fn is_back_edge_target(insns: Seq<BpfInsn>, t: usize) -> bool {
    exists|pc: int| 0 <= pc < insns.len() && is_jump(#[trigger] insns[pc]) && t <= pc
        && branch_target(insns, pc, insns[pc].offset) == Some(t)
}

/// Pre-scan instructions to find PCs that are targets of backward jumps.
fn find_back_edge_targets(
    instructions: &[BpfInsn],
    collapsed_to_raw: &[usize],
    raw_to_collapsed: &HashMap<usize, usize>,
) -> (targets: HashSet<usize>)
    requires
        instructions@.len() <= usize::MAX / 2,
        collapsed_to_raw@.len() == instructions@.len(),
        forall|i: int| 0 <= i < instructions@.len() ==> #[trigger] collapsed_to_raw@[i] == raw_pc(instructions@, i),
        forall|k: usize| #[trigger] raw_to_collapsed@.contains_key(k) <==> collapsed_at(instructions@, k as int) is Some,
        forall|k: usize| #[trigger] raw_to_collapsed@.contains_key(k) ==> Some(raw_to_collapsed@[k]) == collapsed_at(instructions@, k as int),
    ensures
        forall|t: usize| #[trigger] targets@.contains(t) <==> is_back_edge_target(instructions@, t),
{
    let mut targets: HashSet<usize> = HashSet::new();
    let n = instructions.len();
    let mut pc: usize = 0;
    while pc < n
        invariant
            n == instructions@.len(),
            n <= usize::MAX / 2,
            pc <= n,
            collapsed_to_raw@.len() == instructions@.len(),
            forall|i: int| 0 <= i < instructions@.len() ==> #[trigger] collapsed_to_raw@[i] == raw_pc(instructions@, i),
            forall|k: usize| #[trigger] raw_to_collapsed@.contains_key(k) <==> collapsed_at(instructions@, k as int) is Some,
            forall|k: usize| #[trigger] raw_to_collapsed@.contains_key(k) ==> Some(raw_to_collapsed@[k]) == collapsed_at(instructions@, k as int),
            forall|t: usize| #[trigger] targets@.contains(t) <==> exists|q: int| 0 <= q < pc && is_jump(#[trigger] instructions@[q])
                && t <= q && branch_target(instructions@, q, instructions@[q].offset) == Some(t),
        decreases n - pc,
    {
        let insn = &instructions[pc];
        let jumps = match insn.opcode {
            Opcode::JmpJa | Opcode::Jmp64(_, _) | Opcode::Jmp32(_, _) => true,
            _ => false,
        };
        let ghost before = targets@;
        if jumps {
            let target = resolve_branch_target(pc, insn.offset, collapsed_to_raw, raw_to_collapsed, Ghost(instructions@));
            if let Some(t) = target {
                if t <= pc {
                    targets.insert(t);
                }
            }
        }
        proof {
            assert forall|t: usize| #[trigger] targets@.contains(t) <==> exists|q: int| 0 <= q < pc + 1
                && is_jump(#[trigger] instructions@[q]) && t <= q
                && branch_target(instructions@, q, instructions@[q].offset) == Some(t) by {
                if exists|q: int| 0 <= q < pc + 1 && is_jump(#[trigger] instructions@[q]) && t <= q
                    && branch_target(instructions@, q, instructions@[q].offset) == Some(t) {
                    let q = choose|q: int| 0 <= q < pc + 1 && is_jump(#[trigger] instructions@[q]) && t <= q
                        && branch_target(instructions@, q, instructions@[q].offset) == Some(t);
                    if q < pc {
                        assert(before.contains(t));
                    }
                }
                if before.contains(t) {
                    let q = choose|q: int| 0 <= q < pc && is_jump(#[trigger] instructions@[q]) && t <= q
                        && branch_target(instructions@, q, instructions@[q].offset) == Some(t);
                    assert(0 <= q < pc + 1);
                }
            }
        }
        pc = pc + 1;
    }
    targets
}

/// The error for reading register `reg` at `pc`, if it is not readable:
/// every register but r10 must have been written.
pub open spec fn read_error(state: VerifierState, reg: Reg, pc: usize, loc: Option<&SourceLoc>) -> Option<ErrorView> {
    if reg != Reg::R10 && state.reg(reg).reg_type is Uninit {
        Some(error_at(pc, loc, ErrorKindView::UninitRegRead { reg }))
    } else {
        None
    }
}

/// Check that `reg` may be read (r10, the frame pointer, always may).
pub fn check_reg_readable(state: &VerifierState, reg: Reg, pc: usize, loc: Option<&SourceLoc>) -> (r: Option<VerifyError>)
    ensures
        opt_error(r) == read_error(*state, reg, pc, loc),
{
    if reg == Reg::R10 {
        return None;
    }
    if !state.get(reg).is_readable() {
        Some(VerifyError::new(pc, ErrorKind::UninitRegRead { reg }).with_source(loc))
    } else {
        None
    }
}

/// The error at an EXIT instruction, if any: r0 must have been written
/// and must not hold a valid pointer (that would leak a kernel address).
pub open spec fn exit_error(state: VerifierState, pc: usize, loc: Option<&SourceLoc>) -> Option<ErrorView> {
    let r0 = state.reg(Reg::R0);
    if r0.reg_type is Uninit {
        Some(error_at(pc, loc, ErrorKindView::UninitReturn))
    } else if r0.reg_type.is_pointer() {
        Some(error_at(pc, loc, ErrorKindView::PtrLeak { reg: Reg::R0, ptr_kind: r0.reg_type.name_text() }))
    } else {
        None
    }
}

/// Check the state at an EXIT instruction.
pub fn check_exit(state: &VerifierState, pc: usize, loc: Option<&SourceLoc>) -> (r: Option<VerifyError>)
    ensures
        opt_error(r) == exit_error(*state, pc, loc),
{
    let r0 = state.get(Reg::R0);
    if r0.reg_type.is_uninit() {
        return Some(VerifyError::new(pc, ErrorKind::UninitReturn).with_source(loc));
    }
    if r0.reg_type.is_ptr() {
        let kind = r0.reg_type.kind_name().to_owned();
        return Some(VerifyError::new(pc, ErrorKind::PtrLeak { reg: Reg::R0, ptr_kind: kind }).with_source(loc));
    }
    None
}

/// Whether a register of type `actual` is accepted for a helper argument
/// of type `expected`.
pub open spec fn arg_accepts(expected: ArgType, actual: RegType) -> bool {
    match expected {
        ArgType::Any => true,
        ArgType::Scalar | ArgType::Size | ArgType::Flags => actual is Scalar || actual is KernelPtr || actual is Null,
        ArgType::PtrToStack => actual is FramePtr,
        // Map pointers are loaded as 64-bit immediates, so scalars.
        ArgType::MapPtr => actual is Scalar,
        ArgType::PtrToMapKey | ArgType::PtrToMapValue => actual is FramePtr || actual is MapValuePtr || actual is DataPtr,
        ArgType::PtrToRingBuf => actual is RingBufPtr,
        ArgType::PtrToMem => actual is FramePtr || actual is MapValuePtr || actual is RingBufPtr,
        ArgType::PtrToReadonlyMem => actual is FramePtr || actual is MapValuePtr || actual is DataPtr,
    }
}

fn arg_ok(expected: ArgType, actual: &RegType) -> (b: bool)
    ensures
        b == arg_accepts(expected, *actual),
{
    match expected {
        ArgType::Any => true,
        ArgType::Scalar | ArgType::Size | ArgType::Flags =>
            matches!(actual, RegType::Scalar | RegType::KernelPtr | RegType::Null),
        ArgType::PtrToStack => matches!(actual, RegType::FramePtr { .. }),
        ArgType::MapPtr => matches!(actual, RegType::Scalar),
        ArgType::PtrToMapKey | ArgType::PtrToMapValue =>
            matches!(actual, RegType::FramePtr { .. } | RegType::MapValuePtr { .. } | RegType::DataPtr { .. }),
        ArgType::PtrToRingBuf => matches!(actual, RegType::RingBufPtr { .. }),
        ArgType::PtrToMem =>
            matches!(actual, RegType::FramePtr { .. } | RegType::MapValuePtr { .. } | RegType::RingBufPtr { .. }),
        ArgType::PtrToReadonlyMem =>
            matches!(actual, RegType::FramePtr { .. } | RegType::MapValuePtr { .. } | RegType::DataPtr { .. }),
    }
}

/// Register carrying helper argument `i` (0-based): r1..r5.
pub open spec fn arg_reg(i: int) -> Reg {
    if i == 0 { Reg::R1 } else if i == 1 { Reg::R2 } else if i == 2 { Reg::R3 } else if i == 3 { Reg::R4 } else { Reg::R5 }
}

/// The error for helper argument `i`, if its register does not fit.
pub open spec fn arg_error(state: VerifierState, id: i32, i: int, pc: usize, loc: Option<&SourceLoc>) -> Option<ErrorView> {
    match helper_args(id as int)[i] {
        None => None,
        Some(expected) => {
            let actual = state.reg(arg_reg(i)).reg_type;
            if actual is Uninit {
                Some(error_at(pc, loc, ErrorKindView::UninitRegRead { reg: arg_reg(i) }))
            } else if !arg_accepts(expected, actual) {
                Some(error_at(pc, loc, ErrorKindView::InvalidHelperArg {
                    helper: helper_name(id as int),
                    arg_index: (i + 1) as usize,
                    expected: expected.text(),
                    actual: actual.display(),
                }))
            } else {
                None
            }
        },
    }
}

/// The error of the first helper argument, from `i` on, that does not fit.
pub open spec fn first_arg_error(state: VerifierState, id: i32, i: int, pc: usize, loc: Option<&SourceLoc>) -> Option<ErrorView>
    decreases 5 - i,
{
    if i >= 5 {
        None
    } else {
        match arg_error(state, id, i, pc, loc) {
            Some(e) => Some(e),
            None => first_arg_error(state, id, i + 1, pc, loc),
        }
    }
}

proof fn lemma_first_arg_error(state: VerifierState, id: i32, k: int, i: int, pc: usize, loc: Option<&SourceLoc>)
    requires
        0 <= k <= i <= 5,
        forall|j: int| k <= j < i ==> #[trigger] arg_error(state, id, j, pc, loc) is None,
    ensures
        first_arg_error(state, id, k, pc, loc) == first_arg_error(state, id, i, pc, loc),
    decreases i - k,
{
    if k < i {
        lemma_first_arg_error(state, id, k + 1, i, pc, loc);
    }
}

/// The state a helper leaves in r0, by its return kind. Nullable pointers
/// get allocation `id`; a ring buffer reservation has the size in r2 when
/// that is known.
pub open spec fn call_return(ret: HelperReturn, id: usize, pc: usize, r2: RegState) -> RegState {
    match ret {
        HelperReturn::Scalar | HelperReturn::ErrorCode => unbounded(RegType::Scalar),
        HelperReturn::KernelPtr => unbounded(RegType::KernelPtr),
        HelperReturn::MapPtr => unbounded(RegType::PtrOrNull {
            inner: Box::new(RegType::MapValuePtr { id, offset: 0, size: DEFAULT_MAP_VALUE_SIZE, origin_pc: pc }),
            origin_pc: Some(pc),
            id,
        }),
        HelperReturn::RingBufPtr => unbounded(RegType::PtrOrNull {
            inner: Box::new(RegType::RingBufPtr {
                id,
                offset: 0,
                size: if r2.tnum.mask == 0 { r2.tnum.value as u32 } else { DEFAULT_RINGBUF_SIZE },
                origin_pc: pc,
            }),
            origin_pc: Some(pc),
            id,
        }),
    }
}

/// Registers after a helper call: r0 the returned state, r1-r5
/// clobbered, r6-r10 kept.
pub open spec fn after_call(regs: Seq<RegState>, r0: RegState) -> Seq<RegState> {
    Seq::new(11, |i: int| if i == 0 { r0 } else if i <= 5 { unbounded(RegType::Uninit) } else { regs[i] })
}

/// The stack write of a helper that fills memory at r1 (a stack pointer)
/// with the r2 bytes: the offset and the byte count, which is the known
/// size capped at 512 and taken modulo 256, or 0 when the size is unknown.
pub open spec fn call_write(state: VerifierState, id: i32) -> Option<(i64, u8)> {
    let a0 = helper_args(id as int)[0];
    let r2 = state.reg(Reg::R2);
    match state.reg(Reg::R1).reg_type {
        RegType::FramePtr { offset } => if a0 == Some(ArgType::PtrToMem) || a0 == Some(ArgType::PtrToStack) {
            let size: u64 = if r2.tnum.mask == 0 { r2.tnum.value } else { 0 };
            Some((offset, min_u(size, 512) as u8))
        } else {
            None
        },
        _ => None,
    }
}

/// Helpers that read kernel memory (probe_read, probe_read_kernel,
/// probe_read_kernel_str): an 8-byte read is taken to be a pointer field.
pub open spec fn reads_kernel(id: i32) -> bool {
    id == 4 || id == 113 || id == 115
}

/// What a helper call that passes its checks does: r0 takes the helper's
/// result (a nullable result takes a fresh allocation id), r1-r5 are
/// clobbered, and a helper that fills stack memory marks it written.
pub open spec fn call_post(
    state: VerifierState,
    stack: StackState,
    id: usize,
    insn: BpfInsn,
    pc: usize,
    state2: VerifierState,
    stack2: StackState,
    id2: usize,
) -> bool {
    let ret = helper_ret(insn.imm as int)->0;
    let fresh = ret == HelperReturn::MapPtr || ret == HelperReturn::RingBufPtr;
    &&& id2 == id + (if fresh { 1int } else { 0int })
    &&& state2.regs@ == after_call(state.regs@, call_return(ret, id, pc, state.reg(Reg::R2)))
    &&& match call_write(state, insn.imm) {
        Some((off, ws)) => {
            &&& forall|i: int| 0 <= i < 512 ==> #[trigger] stack2.written(i) == (stack.written(i)
                || (ws > 0 && 512 + off <= i < 512 + off + ws))
            &&& stack2.spill_map() == (if ws == 8 && reads_kernel(insn.imm) {
                stack.spill_map().insert(off, unbounded(RegType::KernelPtr))
            } else {
                stack.spill_map()
            })
        },
        None => stack2 == stack,
    }
}

/// Check a helper call (CALL instruction with the helper id in `imm`).
///
/// On success r0 holds the helper's result, r1-r5 are clobbered, a helper
/// that fills stack memory marks those bytes written, and nullable results
/// take a fresh allocation id.
pub fn check_call(
    state: &mut VerifierState,
    stack: &mut StackState,
    insn: &BpfInsn,
    pc: usize,
    loc: Option<&SourceLoc>,
    id_gen: &mut IdGen,
) -> (r: Option<VerifyError>)
    requires
        old(stack).wf(),
        old(id_gen).peek() < usize::MAX,
    ensures
        final(stack).wf(),
        helper_ret(insn.imm as int) is None ==> opt_error(r) == Some(
            error_at(pc, loc, ErrorKindView::UnknownHelper { id: insn.imm })),
        helper_ret(insn.imm as int) is Some ==> opt_error(r) == first_arg_error(*old(state), insn.imm, 0, pc, loc),
        r is Some ==> *final(state) == *old(state) && *final(stack) == *old(stack) && *final(id_gen) == *old(id_gen),
        r is None ==> call_post(*old(state), *old(stack), old(id_gen).peek(), *insn, pc, *final(state), *final(stack),
            final(id_gen).peek()),
        r is None ==> forall|i: int| 1 <= i <= 5 ==> (#[trigger] final(state).regs@[i]).reg_type is Uninit,
        r is None ==> forall|i: int| 6 <= i <= 10 ==> #[trigger] final(state).regs@[i] == old(state).regs@[i],
{
    let helper = match get_helper(insn.imm) {
        Some(h) => h,
        None => {
            return Some(VerifyError::new(pc, ErrorKind::UnknownHelper { id: insn.imm }).with_source(loc));
        },
    };
    let arg_regs = [Reg::R1, Reg::R2, Reg::R3, Reg::R4, Reg::R5];
    let mut i: usize = 0;
    while i < 5
        invariant
            i <= 5,
            stack.wf(),
            id_gen.peek() < usize::MAX,
            helper_entry_matches(insn.imm, Some(helper)),
            arg_regs@ == seq![Reg::R1, Reg::R2, Reg::R3, Reg::R4, Reg::R5],
            forall|j: int| 0 <= j < i ==> #[trigger] arg_error(*state, insn.imm, j, pc, loc) is None,
        decreases 5 - i,
    {
        assert(arg_regs@[i as int] == arg_reg(i as int));
        if let Some(expected) = helper.args[i] {
            let reg = arg_regs[i];
            let actual = &state.get(reg).reg_type;
            if actual.is_uninit() {
                proof { lemma_first_arg_error(*state, insn.imm, 0, i as int, pc, loc); }
                return Some(VerifyError::new(pc, ErrorKind::UninitRegRead { reg }).with_source(loc));
            }
            if !arg_ok(expected, actual) {
                proof { lemma_first_arg_error(*state, insn.imm, 0, i as int, pc, loc); }
                let kind = ErrorKind::InvalidHelperArg {
                    helper: helper.name.to_owned(),
                    arg_index: i + 1,
                    expected: expected.description().to_owned(),
                    actual: actual.to_text(),
                };
                return Some(VerifyError::new(pc, kind).with_source(loc));
            }
        }
        i = i + 1;
    }
    proof { lemma_first_arg_error(*state, insn.imm, 0, 5, pc, loc); }
    let ghost before = *state;
    let ghost id0 = id_gen.peek();
    let r0 = match helper.ret_type {
        HelperReturn::Scalar | HelperReturn::ErrorCode => RegState::scalar_unknown(),
        HelperReturn::KernelPtr => RegState::kernel_ptr(),
        HelperReturn::MapPtr => {
            let id = id_gen.next();
            let inner = RegType::MapValuePtr { id, offset: 0, size: DEFAULT_MAP_VALUE_SIZE, origin_pc: pc };
            RegState {
                reg_type: RegType::PtrOrNull { inner: Box::new(inner), origin_pc: Some(pc), id },
                tnum: Tnum::unknown(),
                smin: i64::MIN,
                smax: i64::MAX,
                umin: 0,
                umax: u64::MAX,
            }
        },
        HelperReturn::RingBufPtr => {
            let id = id_gen.next();
            let reserve_size: u32 = match state.get(Reg::R2).tnum.known_value() {
                Some(v) => v as u32,
                None => DEFAULT_RINGBUF_SIZE,
            };
            let inner = RegType::RingBufPtr { id, offset: 0, size: reserve_size, origin_pc: pc };
            RegState {
                reg_type: RegType::PtrOrNull { inner: Box::new(inner), origin_pc: Some(pc), id },
                tnum: Tnum::unknown(),
                smin: i64::MIN,
                smax: i64::MAX,
                umin: 0,
                umax: u64::MAX,
            }
        },
    };
    state.set(Reg::R0, r0);

    // Helpers that fill memory at r1 with r2 bytes: mark those stack bytes
    // written so later loads are accepted.
    let fills = match helper.args[0] {
        Some(ArgType::PtrToMem) | Some(ArgType::PtrToStack) => true,
        _ => false,
    };
    if fills {
        if let RegType::FramePtr { offset } = &state.get(Reg::R1).reg_type {
            let dst_off = *offset;
            let size: u64 = match state.get(Reg::R2).tnum.known_value() {
                Some(v) => v,
                None => 0,
            };
            let write_size = (if size < 512 { size } else { 512 }) as u8;
            if write_size > 0 {
                stack.mark_written(dst_off, write_size);
            }
            // An 8-byte read from kernel memory is typically a
            // pointer-sized field: spill it as a kernel pointer so chained
            // field accesses are accepted.
            let is_kernel_read = helper.id == 4 || helper.id == 113 || helper.id == 115;
            if write_size == 8 && is_kernel_read {
                let kp = RegState::kernel_ptr();
                stack.spill(dst_off, &kp);
            }
        }
    }
    // Clobber the caller-saved registers r1-r5.
    state.set(Reg::R1, RegState::uninit());
    state.set(Reg::R2, RegState::uninit());
    state.set(Reg::R3, RegState::uninit());
    state.set(Reg::R4, RegState::uninit());
    state.set(Reg::R5, RegState::uninit());
    proof {
        let ret = helper_ret(insn.imm as int)->0;
        assert(final(state).regs@ =~= after_call(before.regs@, call_return(ret, id0, pc, before.reg(Reg::R2))));
    }
    None
}

/// The immediate operand of an ALU instruction: sign-extended to 64 bits
/// for 64-bit operations, zero-extended from 32 bits otherwise.
pub open spec fn imm_operand(insn: BpfInsn, is_64: bool) -> u64 {
    if is_64 { insn.imm as i64 as u64 } else { insn.imm as u32 as u64 }
}

fn imm_value(insn: &BpfInsn, is_64: bool) -> (v: u64)
    ensures
        v == imm_operand(*insn, is_64),
{
    if is_64 { insn.imm as i64 as u64 } else { insn.imm as u32 as u64 }
}

/// The value a tnum stands for when it is fully known.
pub open spec fn known(t: Tnum) -> Option<u64> {
    if t.mask == 0 { Some(t.value) } else { None }
}

/// The tnum of a completely unknown value.
pub open spec fn unknown_t() -> Tnum {
    Tnum { value: 0, mask: u64::MAX }
}

/// A pointer type moved by `delta` bytes (wrapping), or with its offset
/// reset to 0 when the addend is unknown. Kernel and data pointers carry
/// no offset; anything else becomes a scalar.
pub open spec fn moved_ptr(t: RegType, delta: Option<i64>) -> RegType {
    let off = |o: i64| match delta {
        Some(d) => vstd::wrapping::i64_specs::wrapping_add(o, d),
        None => 0i64,
    };
    match t {
        RegType::FramePtr { offset } => RegType::FramePtr { offset: off(offset) },
        RegType::CtxPtr { offset } => RegType::CtxPtr { offset: off(offset) },
        RegType::MapValuePtr { id, offset, size, origin_pc } =>
            RegType::MapValuePtr { id, offset: off(offset), size, origin_pc },
        RegType::RingBufPtr { id, offset, size, origin_pc } =>
            RegType::RingBufPtr { id, offset: off(offset), size, origin_pc },
        RegType::KernelPtr => RegType::KernelPtr,
        RegType::DataPtr { name } => RegType::DataPtr { name },
        _ => RegType::Scalar,
    }
}

fn move_ptr(t: &RegType, delta: Option<i64>) -> (r: RegType)
    ensures
        r == moved_ptr(*t, delta),
{
    match t {
        RegType::FramePtr { offset } => RegType::FramePtr { offset: shifted(*offset, delta) },
        RegType::CtxPtr { offset } => RegType::CtxPtr { offset: shifted(*offset, delta) },
        RegType::MapValuePtr { id, offset, size, origin_pc } =>
            RegType::MapValuePtr { id: *id, offset: shifted(*offset, delta), size: *size, origin_pc: *origin_pc },
        RegType::RingBufPtr { id, offset, size, origin_pc } =>
            RegType::RingBufPtr { id: *id, offset: shifted(*offset, delta), size: *size, origin_pc: *origin_pc },
        RegType::KernelPtr => RegType::KernelPtr,
        RegType::DataPtr { name } => RegType::DataPtr { name: name.clone() },
        _ => RegType::Scalar,
    }
}

fn shifted(o: i64, delta: Option<i64>) -> (r: i64)
    ensures
        r == (match delta {
            Some(d) => vstd::wrapping::i64_specs::wrapping_add(o, d),
            None => 0i64,
        }),
{
    match delta {
        Some(d) => o.wrapping_add(d),
        None => 0,
    }
}

/// Tnum of a scalar ALU result. Shifts need a known amount, and
/// multiplication, division and modulo need both operands known
/// (division and modulo by zero give an unknown result).
pub open spec fn alu_tnum(op: AluOp, a: Tnum, b: Tnum) -> Tnum {
    match op {
        AluOp::Add => a.add_t(b),
        AluOp::Sub => a.sub_t(b),
        AluOp::And => a.and_t(b),
        AluOp::Or => a.or_t(b),
        AluOp::Xor => a.xor_t(b),
        AluOp::Lsh => if b.mask == 0 { a.lsh_t(b.value as u32) } else { unknown_t() },
        AluOp::Rsh => if b.mask == 0 { a.rsh_t(b.value as u32) } else { unknown_t() },
        AluOp::Arsh => if a.mask == 0 && b.mask == 0 {
            Tnum { value: ((a.value as i64) >> ((b.value & 63) as u32)) as u64, mask: 0 }
        } else {
            unknown_t()
        },
        AluOp::Mul => if a.mask == 0 && b.mask == 0 {
            Tnum { value: vstd::wrapping::u64_specs::wrapping_mul(a.value, b.value), mask: 0 }
        } else {
            unknown_t()
        },
        AluOp::Div => if a.mask == 0 && b.mask == 0 && b.value != 0 {
            Tnum { value: a.value / b.value, mask: 0 }
        } else {
            unknown_t()
        },
        AluOp::Mod => if a.mask == 0 && b.mask == 0 && b.value != 0 {
            Tnum { value: a.value % b.value, mask: 0 }
        } else {
            unknown_t()
        },
        AluOp::Mov | AluOp::Neg => unknown_t(),
    }
}

fn scalar_tnum(op: AluOp, a: Tnum, b: Tnum) -> (t: Tnum)
    ensures
        t == alu_tnum(op, a, b),
{
    match op {
        AluOp::Add => a.add(b),
        AluOp::Sub => a.sub(b),
        AluOp::And => a.and(b),
        AluOp::Or => a.or(b),
        AluOp::Xor => a.xor(b),
        AluOp::Lsh => match b.known_value() {
            Some(s) => a.lsh(s as u32),
            None => Tnum::unknown(),
        },
        AluOp::Rsh => match b.known_value() {
            Some(s) => a.rsh(s as u32),
            None => Tnum::unknown(),
        },
        AluOp::Arsh => match (a.known_value(), b.known_value()) {
            (Some(x), Some(s)) => {
                assert(s & 63u64 <= 63) by (bit_vector);
                let sh: u32 = (s & 63) as u32;
                Tnum::constant(((x as i64) >> sh) as u64)
            },
            _ => Tnum::unknown(),
        },
        AluOp::Mul => match (a.known_value(), b.known_value()) {
            (Some(x), Some(y)) => Tnum::constant(x.wrapping_mul(y)),
            _ => Tnum::unknown(),
        },
        AluOp::Div => match (a.known_value(), b.known_value()) {
            (Some(x), Some(y)) => if y != 0 { Tnum::constant(x / y) } else { Tnum::unknown() },
            _ => Tnum::unknown(),
        },
        AluOp::Mod => match (a.known_value(), b.known_value()) {
            (Some(x), Some(y)) => if y != 0 { Tnum::constant(x % y) } else { Tnum::unknown() },
            _ => Tnum::unknown(),
        },
        AluOp::Mov | AluOp::Neg => Tnum::unknown(),
    }
}

/// The scalar state of a tnum: bounds from its smallest and largest
/// values (the signed bounds are those two values reinterpreted), then
/// tightened.
pub open spec fn scalar_of(t: Tnum) -> RegState {
    RegState {
        reg_type: RegType::Scalar,
        tnum: t,
        smin: t.value as i64,
        smax: (t.value | t.mask) as i64,
        umin: t.value,
        umax: t.value | t.mask,
    }.refined()
}

fn scalar_state(t: Tnum) -> (r: RegState)
    ensures
        r == scalar_of(t),
{
    let mut r = RegState {
        reg_type: RegType::Scalar,
        tnum: t,
        smin: t.min_value() as i64,
        smax: t.max_value() as i64,
        umin: t.min_value(),
        umax: t.max_value(),
    };
    r.refine_bounds();
    r
}

/// The state a 32-bit register move leaves: a scalar of the low 32 bits,
/// with the bounds clamped to the 32-bit range (the lower unsigned bound
/// is kept).
pub open spec fn mov32_of(r: RegState) -> RegState {
    RegState {
        reg_type: RegType::Scalar,
        tnum: r.tnum.trunc32_t(),
        smin: max_i(r.smin, 0),
        smax: min_i(r.smax, 0xFFFF_FFFF),
        umin: r.umin,
        umax: min_u(r.umax, 0xFFFF_FFFF),
    }
}

/// Outcome of an ALU instruction: the new state of the destination
/// register, or the error it raises.
pub open spec fn alu_outcome(state: VerifierState, insn: BpfInsn, op: AluOp, src: Source, is_64: bool) -> Result<RegState, ErrorKindView> {
    let dst = state.reg(insn.dst);
    let sreg = state.reg(insn.src);
    let src_val = match src { Source::Imm => Some(imm_operand(insn, is_64)), Source::Reg => known(sreg.tnum) };
    let src_type = match src { Source::Imm => RegType::Scalar, Source::Reg => sreg.reg_type };
    let max_shift: u64 = if is_64 { 63 } else { 31 };
    if op is Mov {
        match src {
            Source::Imm => Ok(known_scalar(imm_operand(insn, is_64))),
            Source::Reg => Ok(if is_64 { sreg } else { mov32_of(sreg) }),
        }
    } else if op is Neg {
        if dst.reg_type.is_pointer() {
            Err(ErrorKindView::InvalidPointerArith { reg: insn.dst, op: "NEG"@ })
        } else {
            Ok(unbounded(RegType::Scalar))
        }
    } else if (op is Div || op is Mod) && (match src { Source::Imm => insn.imm == 0, Source::Reg => sreg.umin == 0 }) {
        Err(ErrorKindView::DivByZero { divisor_reg: match src { Source::Imm => insn.dst, Source::Reg => insn.src } })
    } else if (op is Lsh || op is Rsh || op is Arsh) && (match src {
        Source::Imm => insn.imm as u64 > max_shift,
        Source::Reg => sreg.umax > max_shift,
    }) {
        Err(ErrorKindView::ShiftOverflow {
            width: if is_64 { 64u8 } else { 32u8 },
            amount: match src { Source::Imm => insn.imm as u64, Source::Reg => sreg.umax },
        })
    } else if dst.reg_type.is_pointer() {
        if op is Add || op is Sub {
            if src_type.is_pointer() {
                if op is Sub {
                    Ok(unbounded(RegType::Scalar))
                } else {
                    Err(ErrorKindView::InvalidPointerArith { reg: insn.dst, op: "ADD ptr, ptr"@ })
                }
            } else {
                let delta = match src_val {
                    Some(v) => if op is Add { Some(v as i64) } else {
                        Some(vstd::wrapping::i64_specs::wrapping_sub(0, v as i64))
                    },
                    None => None,
                };
                Ok(unbounded(moved_ptr(dst.reg_type, delta)))
            }
        } else {
            Err(ErrorKindView::InvalidPointerArith { reg: insn.dst, op: op.text() })
        }
    } else if op is Add && src_type.is_pointer() {
        // Scalar + pointer: the roles are swapped.
        let delta = match known(dst.tnum) { Some(v) => Some(v as i64), None => None };
        Ok(unbounded(moved_ptr(src_type, delta)))
    } else {
        let src_t = match src { Source::Imm => Tnum { value: imm_operand(insn, is_64), mask: 0 }, Source::Reg => sreg.tnum };
        let t = alu_tnum(op, dst.tnum, src_t);
        Ok(if is_64 { scalar_of(t) } else { scalar_of(t.trunc32_t()) })
    }
}

/// Check an ALU instruction and apply it to the destination register.
pub fn check_alu(
    state: &mut VerifierState,
    insn: &BpfInsn,
    op: AluOp,
    src: Source,
    is_64: bool,
    pc: usize,
    loc: Option<&SourceLoc>,
) -> (r: Option<VerifyError>)
    ensures
        match alu_outcome(*old(state), *insn, op, src, is_64) {
            Ok(v) => r is None && final(state).regs@ == old(state).regs@.update(insn.dst.num() as int, v),
            Err(k) => opt_error(r) == Some(error_at(pc, loc, k)) && *final(state) == *old(state),
        },
{
    let dst_reg = insn.dst;
    let dst_is_ptr = state.get(dst_reg).reg_type.is_ptr();
    let src_val: Option<u64> = match src {
        Source::Imm => Some(imm_value(insn, is_64)),
        Source::Reg => state.get(insn.src).tnum.known_value(),
    };
    let src_is_ptr = match src {
        Source::Imm => false,
        Source::Reg => state.get(insn.src).reg_type.is_ptr(),
    };

    match op {
        AluOp::Mov => {
            match src {
                Source::Imm => {
                    state.set(dst_reg, RegState::scalar_value(imm_value(insn, is_64)));
                },
                Source::Reg => {
                    let mut v = state.get(insn.src).dup();
                    if !is_64 {
                        // A 32-bit move clears the upper bits and demotes
                        // pointers to scalars.
                        v.reg_type = RegType::Scalar;
                        v.tnum = v.tnum.trunc32();
                        v.umax = if v.umax < 0xFFFF_FFFF { v.umax } else { 0xFFFF_FFFF };
                        v.smin = if v.smin > 0 { v.smin } else { 0 };
                        v.smax = if v.smax < 0xFFFF_FFFF { v.smax } else { 0xFFFF_FFFF };
                    }
                    state.set(dst_reg, v);
                },
            }
            return None;
        },
        AluOp::Neg => {
            if dst_is_ptr {
                let kind = ErrorKind::InvalidPointerArith { reg: dst_reg, op: "NEG".to_owned() };
                return Some(VerifyError::new(pc, kind).with_source(loc));
            }
            state.set(dst_reg, RegState::scalar_unknown());
            return None;
        },
        _ => {},
    }

    // Division or modulo by a divisor that may be zero.
    if matches!(op, AluOp::Div | AluOp::Mod) {
        let could_be_zero = match src {
            Source::Imm => insn.imm == 0,
            Source::Reg => state.get(insn.src).umin == 0,
        };
        if could_be_zero {
            let divisor_reg = match src {
                Source::Imm => dst_reg,
                Source::Reg => insn.src,
            };
            return Some(VerifyError::new(pc, ErrorKind::DivByZero { divisor_reg }).with_source(loc));
        }
    }

    // Shift amounts beyond the operand width.
    if matches!(op, AluOp::Lsh | AluOp::Rsh | AluOp::Arsh) {
        let max_shift: u64 = if is_64 { 63 } else { 31 };
        let amount: u64 = match src {
            Source::Imm => insn.imm as u64,
            Source::Reg => state.get(insn.src).umax,
        };
        if amount > max_shift {
            let kind = ErrorKind::ShiftOverflow { width: if is_64 { 64 } else { 32 }, amount };
            return Some(VerifyError::new(pc, kind).with_source(loc));
        }
    }

    // Pointer arithmetic rules.
    if dst_is_ptr {
        match op {
            AluOp::Add | AluOp::Sub => {
                if src_is_ptr {
                    if op == AluOp::Sub {
                        // ptr - ptr is the scalar offset difference.
                        state.set(dst_reg, RegState::scalar_unknown());
                        return None;
                    }
                    let kind = ErrorKind::InvalidPointerArith { reg: dst_reg, op: "ADD ptr, ptr".to_owned() };
                    return Some(VerifyError::new(pc, kind).with_source(loc));
                }
                let delta: Option<i64> = match src_val {
                    Some(v) => if op == AluOp::Add { Some(v as i64) } else { Some(0i64.wrapping_sub(v as i64)) },
                    None => None,
                };
                let t = move_ptr(&state.get(dst_reg).reg_type, delta);
                state.set(dst_reg, RegState::with_type(t));
                return None;
            },
            _ => {
                let kind = ErrorKind::InvalidPointerArith { reg: dst_reg, op: op.name().to_owned() };
                return Some(VerifyError::new(pc, kind).with_source(loc));
            },
        }
    }

    // Scalar + pointer: ADD is commutative, so the pointer moves.
    if op == AluOp::Add && src_is_ptr {
        let delta: Option<i64> = match state.get(dst_reg).tnum.known_value() {
            Some(v) => Some(v as i64),
            None => None,
        };
        let t = move_ptr(&state.get(insn.src).reg_type, delta);
        state.set(dst_reg, RegState::with_type(t));
        return None;
    }

    // Scalar ALU on tnums.
    let src_tnum = match src {
        Source::Imm => Tnum::constant(imm_value(insn, is_64)),
        Source::Reg => state.get(insn.src).tnum,
    };
    let t = scalar_tnum(op, state.get(dst_reg).tnum, src_tnum);
    let result = if is_64 { scalar_state(t) } else { scalar_state(t.trunc32()) };
    state.set(dst_reg, result);
    None
}

/// The source location of instruction `pc`, if recorded.
pub open spec fn loc_at(source_locs: Seq<Option<SourceLoc>>, pc: Option<usize>) -> Option<SourceLoc> {
    match pc {
        Some(p) => if p < source_locs.len() { source_locs[p as int] } else { None },
        None => None,
    }
}

fn origin_loc(source_locs: &[Option<SourceLoc>], pc: Option<usize>) -> (r: Option<SourceLoc>)
    ensures
        r == loc_at(source_locs@, pc),
{
    match pc {
        Some(p) => if p < source_locs.len() {
            match &source_locs[p] {
                Some(l) => Some(l.dup()),
                None => None,
            }
        } else {
            None
        },
        None => None,
    }
}

/// Effective offset of an access: pointer offset plus instruction offset
/// (wrapping).
pub open spec fn eff_offset(ptr_off: i64, insn: BpfInsn) -> i64 {
    vstd::wrapping::i64_specs::wrapping_add(ptr_off, insn.offset as i64)
}

/// Whether a `width`-byte access at `offset` leaves a region of `size` bytes.
pub open spec fn outside(offset: i64, width: u8, size: int) -> bool {
    offset < 0 || offset + width > size
}

fn is_outside(offset: i64, width: u8, size: i64) -> (b: bool)
    ensures
        b == outside(offset, width, size as int),
{
    offset < 0 || offset as i128 + width as i128 > size as i128
}

/// Outcome of a load through the pointer in `insn.src`: the loaded state
/// for the destination register, or the error.
pub open spec fn load_outcome(
    state: VerifierState,
    stack: StackState,
    insn: BpfInsn,
    w: MemWidth,
    source_locs: Seq<Option<SourceLoc>>,
) -> Result<RegState, ErrorKindView> {
    let width = w.bytes();
    let reg = insn.src;
    match state.reg(reg).reg_type {
        RegType::FramePtr { offset } => {
            let eff = eff_offset(offset, insn);
            if !in_frame(eff as int, width as int) {
                Err(ErrorKindView::OutOfBoundsAccess { reg, ptr_kind: "stack"@, offset: eff, width, region_size: STACK_SIZE })
            } else if !stack.readable(eff as int, width as int) {
                Err(ErrorKindView::UninitStackRead { offset: eff, width })
            } else if width == 8 && stack.spill_map().contains_key(eff) {
                Ok(stack.spill_map()[eff])
            } else {
                Ok(unbounded(RegType::Scalar))
            }
        },
        RegType::MapValuePtr { offset, size, .. } => {
            let eff = eff_offset(offset, insn);
            if outside(eff, width, size as int) {
                Err(ErrorKindView::OutOfBoundsAccess { reg, ptr_kind: "map value"@, offset: eff, width, region_size: size as i64 })
            } else {
                Ok(unbounded(RegType::Scalar))
            }
        },
        RegType::CtxPtr { offset } => {
            let eff = eff_offset(offset, insn);
            if outside(eff, width, CTX_SIZE as int) {
                Err(ErrorKindView::OutOfBoundsAccess { reg, ptr_kind: "context"@, offset: eff, width, region_size: CTX_SIZE })
            } else if width == 8 {
                Ok(unbounded(RegType::KernelPtr))
            } else {
                Ok(unbounded(RegType::Scalar))
            }
        },
        RegType::RingBufPtr { offset, size, .. } => {
            let eff = eff_offset(offset, insn);
            if outside(eff, width, size as int) {
                Err(ErrorKindView::OutOfBoundsAccess { reg, ptr_kind: "ring buffer"@, offset: eff, width, region_size: size as i64 })
            } else {
                Ok(unbounded(RegType::Scalar))
            }
        },
        RegType::KernelPtr => Ok(if width == 8 { unbounded(RegType::KernelPtr) } else { unbounded(RegType::Scalar) }),
        RegType::DataPtr { .. } => Ok(unbounded(RegType::Scalar)),
        RegType::PtrOrNull { origin_pc, .. } =>
            Err(ErrorKindView::NullPointerDeref { reg, origin_pc, origin_loc: loc_at(source_locs, origin_pc) }),
        RegType::Null => Err(ErrorKindView::NullPointerDeref { reg, origin_pc: None, origin_loc: None }),
        RegType::Scalar => Err(ErrorKindView::InvalidPointerDeref { reg, actual: "scalar"@ }),
        RegType::Uninit => Err(ErrorKindView::UninitRegRead { reg }),
    }
}

/// Check a load (LDX) and set the destination register.
///
/// Stack loads must be in the frame and fully written; an 8-byte load of
/// a spilled register gets the spilled state back. Loads of 8 bytes from
/// the context or kernel memory give kernel pointers.
pub fn check_load(
    state: &mut VerifierState,
    stack: &StackState,
    insn: &BpfInsn,
    w: MemWidth,
    pc: usize,
    loc: Option<&SourceLoc>,
    source_locs: &[Option<SourceLoc>],
) -> (r: Option<VerifyError>)
    requires
        stack.wf(),
    ensures
        match load_outcome(*old(state), *stack, *insn, w, source_locs@) {
            Ok(v) => r is None && final(state).regs@ == old(state).regs@.update(insn.dst.num() as int, v),
            Err(k) => opt_error(r) == Some(error_at(pc, loc, k)) && *final(state) == *old(state),
        },
{
    let width = w.width_bytes();
    let reg = insn.src;
    let err: ErrorKind;
    match &state.get(reg).reg_type {
        RegType::FramePtr { offset } => {
            let eff = offset.wrapping_add(insn.offset as i64);
            if !StackState::check_bounds(eff, width) {
                err = ErrorKind::OutOfBoundsAccess { reg, ptr_kind: "stack", offset: eff, width, region_size: STACK_SIZE };
            } else if !stack.check_readable(eff, width) {
                err = ErrorKind::UninitStackRead { offset: eff, width };
            } else {
                // An 8-byte load of a spilled register restores it.
                if width == 8 {
                    if let Some(spilled) = stack.get_spill(eff) {
                        let v = spilled.dup();
                        state.set(insn.dst, v);
                        return None;
                    }
                }
                state.set(insn.dst, RegState::scalar_unknown());
                return None;
            }
        },
        RegType::MapValuePtr { offset, size, .. } => {
            let eff = offset.wrapping_add(insn.offset as i64);
            if is_outside(eff, width, *size as i64) {
                err = ErrorKind::OutOfBoundsAccess { reg, ptr_kind: "map value", offset: eff, width, region_size: *size as i64 };
            } else {
                state.set(insn.dst, RegState::scalar_unknown());
                return None;
            }
        },
        RegType::CtxPtr { offset } => {
            let eff = offset.wrapping_add(insn.offset as i64);
            if is_outside(eff, width, CTX_SIZE) {
                err = ErrorKind::OutOfBoundsAccess { reg, ptr_kind: "context", offset: eff, width, region_size: CTX_SIZE };
            } else {
                // Context fields of tracing and LSM hooks are pointers to
                // kernel structures when they are 8 bytes wide.
                let v = if width == 8 { RegState::kernel_ptr() } else { RegState::scalar_unknown() };
                state.set(insn.dst, v);
                return None;
            }
        },
        RegType::RingBufPtr { offset, size, .. } => {
            let eff = offset.wrapping_add(insn.offset as i64);
            if is_outside(eff, width, *size as i64) {
                err = ErrorKind::OutOfBoundsAccess { reg, ptr_kind: "ring buffer", offset: eff, width, region_size: *size as i64 };
            } else {
                state.set(insn.dst, RegState::scalar_unknown());
                return None;
            }
        },
        RegType::KernelPtr => {
            let v = if width == 8 { RegState::kernel_ptr() } else { RegState::scalar_unknown() };
            state.set(insn.dst, v);
            return None;
        },
        RegType::DataPtr { .. } => {
            state.set(insn.dst, RegState::scalar_unknown());
            return None;
        },
        RegType::PtrOrNull { origin_pc, .. } => {
            let opc = *origin_pc;
            err = ErrorKind::NullPointerDeref { reg, origin_pc: opc, origin_loc: origin_loc(source_locs, opc) };
        },
        RegType::Null => {
            err = ErrorKind::NullPointerDeref { reg, origin_pc: None, origin_loc: None };
        },
        RegType::Scalar => {
            err = ErrorKind::InvalidPointerDeref { reg, actual: "scalar".to_owned() };
        },
        RegType::Uninit => {
            err = ErrorKind::UninitRegRead { reg };
        },
    }
    Some(VerifyError::new(pc, err).with_source(loc))
}

/// Whether a store writes the value register's state to the stack as a
/// spill: an 8-byte register store of a pointer or nullable pointer.
pub open spec fn spills_value(state: VerifierState, insn: BpfInsn, w: MemWidth, is_st: bool) -> bool {
    let v = state.reg(insn.src).reg_type;
    !is_st && w.bytes() == 8 && (v.is_pointer() || v is PtrOrNull)
}

/// The error of a store (STX, or ST when `is_st`) through the pointer in
/// `insn.dst`, if any. Storing a stack or context pointer anywhere but the
/// stack, a map value or a ring buffer leaks it.
pub open spec fn store_error(
    state: VerifierState,
    insn: BpfInsn,
    w: MemWidth,
    is_st: bool,
    source_locs: Seq<Option<SourceLoc>>,
) -> Option<ErrorKindView> {
    let width = w.bytes();
    let reg = insn.dst;
    let base = state.reg(reg).reg_type;
    let val = state.reg(insn.src).reg_type;
    if !is_st && (val is FramePtr || val is CtxPtr) && !(base is FramePtr || base is MapValuePtr || base is RingBufPtr) {
        Some(ErrorKindView::PtrLeak { reg: insn.src, ptr_kind: val.name_text() })
    } else {
        match base {
            RegType::FramePtr { offset } => {
                let eff = eff_offset(offset, insn);
                if !in_frame(eff as int, width as int) {
                    Some(ErrorKindView::OutOfBoundsAccess { reg, ptr_kind: "stack"@, offset: eff, width, region_size: STACK_SIZE })
                } else {
                    None
                }
            },
            RegType::MapValuePtr { offset, size, .. } => {
                let eff = eff_offset(offset, insn);
                if outside(eff, width, size as int) {
                    Some(ErrorKindView::OutOfBoundsAccess { reg, ptr_kind: "map value"@, offset: eff, width, region_size: size as i64 })
                } else {
                    None
                }
            },
            RegType::CtxPtr { offset } => {
                let eff = eff_offset(offset, insn);
                if outside(eff, width, CTX_SIZE as int) {
                    Some(ErrorKindView::OutOfBoundsAccess { reg, ptr_kind: "context"@, offset: eff, width, region_size: CTX_SIZE })
                } else {
                    None
                }
            },
            RegType::RingBufPtr { offset, size, .. } => {
                let eff = eff_offset(offset, insn);
                if outside(eff, width, size as int) {
                    Some(ErrorKindView::OutOfBoundsAccess { reg, ptr_kind: "ring buffer"@, offset: eff, width, region_size: size as i64 })
                } else {
                    None
                }
            },
            RegType::KernelPtr | RegType::DataPtr { .. } => None,
            RegType::PtrOrNull { origin_pc, .. } =>
                Some(ErrorKindView::NullPointerDeref { reg, origin_pc, origin_loc: loc_at(source_locs, origin_pc) }),
            RegType::Null => Some(ErrorKindView::NullPointerDeref { reg, origin_pc: None, origin_loc: None }),
            RegType::Scalar => Some(ErrorKindView::InvalidPointerDeref { reg, actual: "scalar"@ }),
            RegType::Uninit => Some(ErrorKindView::UninitRegRead { reg }),
        }
    }
}

/// What a store that passes its checks does to the stack: through a frame
/// pointer, the bytes it covers become written and the slot's spill is
/// the stored register (for a full-width register store) or cleared;
/// through other pointers, nothing.
pub open spec fn store_post(state: VerifierState, before: StackState, insn: BpfInsn, w: MemWidth, is_st: bool, after: StackState) -> bool {
    match state.reg(insn.dst).reg_type {
        RegType::FramePtr { offset } => {
            let eff = eff_offset(offset, insn);
            &&& forall|i: int| 0 <= i < 512 ==> #[trigger] after.written(i) == (before.written(i)
                || (512 + eff <= i < 512 + eff + w.bytes()))
            &&& after.spill_map() == (if spills_value(state, insn, w, is_st) {
                before.spill_map().insert(eff, state.reg(insn.src))
            } else {
                before.spill_map().remove(eff)
            })
        },
        _ => after == before,
    }
}

/// Check a store (STX, or ST with an immediate when `is_st`) and record
/// it on the stack: the bytes become written, and an 8-byte store of a
/// pointer is kept as a spill (any other store clears the spill there).
pub fn check_store(
    state: &VerifierState,
    stack: &mut StackState,
    insn: &BpfInsn,
    w: MemWidth,
    is_st: bool,
    pc: usize,
    loc: Option<&SourceLoc>,
    source_locs: &[Option<SourceLoc>],
) -> (r: Option<VerifyError>)
    requires
        old(stack).wf(),
    ensures
        final(stack).wf(),
        match store_error(*state, *insn, w, is_st, source_locs@) {
            Some(k) => opt_error(r) == Some(error_at(pc, loc, k)) && *final(stack) == *old(stack),
            None => r is None && store_post(*state, *old(stack), *insn, w, is_st, *final(stack)),
        },
{
    let width = w.width_bytes();
    let reg = insn.dst;
    if !is_st {
        let val = &state.get(insn.src).reg_type;
        let is_bpf_ptr = matches!(val, RegType::FramePtr { .. } | RegType::CtxPtr { .. });
        let dst_tracked = matches!(state.get(reg).reg_type,
            RegType::FramePtr { .. } | RegType::MapValuePtr { .. } | RegType::RingBufPtr { .. });
        if is_bpf_ptr && !dst_tracked {
            let kind = ErrorKind::PtrLeak { reg: insn.src, ptr_kind: val.kind_name().to_owned() };
            return Some(VerifyError::new(pc, kind).with_source(loc));
        }
    }
    let err: ErrorKind;
    match &state.get(reg).reg_type {
        RegType::FramePtr { offset } => {
            let eff = offset.wrapping_add(insn.offset as i64);
            if !StackState::check_bounds(eff, width) {
                err = ErrorKind::OutOfBoundsAccess { reg, ptr_kind: "stack", offset: eff, width, region_size: STACK_SIZE };
            } else {
                let val = state.get(insn.src);
                // Nullable pointers are spilled too, so that a later null
                // check can refine the spilled copy.
                if !is_st && width == 8 && (val.reg_type.is_ptr() || matches!(val.reg_type, RegType::PtrOrNull { .. })) {
                    stack.spill(eff, val);
                } else {
                    stack.clear_spill(eff);
                    stack.mark_written(eff, width);
                }
                return None;
            }
        },
        RegType::MapValuePtr { offset, size, .. } => {
            let eff = offset.wrapping_add(insn.offset as i64);
            if is_outside(eff, width, *size as i64) {
                err = ErrorKind::OutOfBoundsAccess { reg, ptr_kind: "map value", offset: eff, width, region_size: *size as i64 };
            } else {
                return None;
            }
        },
        RegType::CtxPtr { offset } => {
            let eff = offset.wrapping_add(insn.offset as i64);
            if is_outside(eff, width, CTX_SIZE) {
                err = ErrorKind::OutOfBoundsAccess { reg, ptr_kind: "context", offset: eff, width, region_size: CTX_SIZE };
            } else {
                return None;
            }
        },
        RegType::RingBufPtr { offset, size, .. } => {
            let eff = offset.wrapping_add(insn.offset as i64);
            if is_outside(eff, width, *size as i64) {
                err = ErrorKind::OutOfBoundsAccess { reg, ptr_kind: "ring buffer", offset: eff, width, region_size: *size as i64 };
            } else {
                return None;
            }
        },
        // Stores to kernel memory and data sections are allowed.
        RegType::KernelPtr | RegType::DataPtr { .. } => {
            return None;
        },
        RegType::PtrOrNull { origin_pc, .. } => {
            let opc = *origin_pc;
            err = ErrorKind::NullPointerDeref { reg, origin_pc: opc, origin_loc: origin_loc(source_locs, opc) };
        },
        RegType::Null => {
            err = ErrorKind::NullPointerDeref { reg, origin_pc: None, origin_loc: None };
        },
        RegType::Scalar => {
            err = ErrorKind::InvalidPointerDeref { reg, actual: "scalar".to_owned() };
        },
        RegType::Uninit => {
            err = ErrorKind::UninitRegRead { reg };
        },
    }
    Some(VerifyError::new(pc, err).with_source(loc))
}

/// `v + 1`, saturating at the maximum.
pub open spec fn inc_u(v: u64) -> u64 { if v == u64::MAX { v } else { (v + 1) as u64 } }
/// `v - 1`, saturating at zero.
pub open spec fn dec_u(v: u64) -> u64 { if v == 0 { v } else { (v - 1) as u64 } }
/// `v + 1`, saturating at the maximum.
pub open spec fn inc_i(v: i64) -> i64 { if v == i64::MAX { v } else { (v + 1) as i64 } }
/// `v - 1`, saturating at the minimum.
pub open spec fn dec_i(v: i64) -> i64 { if v == i64::MIN { v } else { (v - 1) as i64 } }

fn sat_inc_u(v: u64) -> (r: u64) ensures r == inc_u(v) { if v == u64::MAX { v } else { v + 1 } }
fn sat_dec_u(v: u64) -> (r: u64) ensures r == dec_u(v) { if v == 0 { v } else { v - 1 } }
fn sat_inc_i(v: i64) -> (r: i64) ensures r == inc_i(v) { if v == i64::MAX { v } else { v + 1 } }
fn sat_dec_i(v: i64) -> (r: i64) ensures r == dec_i(v) { if v == i64::MIN { v } else { v - 1 } }

/// The value a 64-bit ALU operation computes from `x` and `y` (shifts
/// are defined for amounts below 64).
pub open spec fn alu_value(op: AluOp, x: u64, y: u64) -> u64 {
    match op {
        AluOp::Add => (x + y) as u64,
        AluOp::Sub => (x - y) as u64,
        AluOp::Mul => vstd::wrapping::u64_specs::wrapping_mul(x, y),
        AluOp::Div => (x / y) as u64,
        AluOp::Mod => (x % y) as u64,
        AluOp::And => x & y,
        AluOp::Or => x | y,
        AluOp::Xor => x ^ y,
        AluOp::Lsh => x << y,
        AluOp::Rsh => x >> y,
        AluOp::Arsh => ((x as i64) >> (y as u32)) as u64,
        AluOp::Mov => y,
        AluOp::Neg => (0 - x) as u64,
    }
}

/// A 64-bit immediate stands for the immediate itself when read back as a
/// signed number.
proof fn lemma_imm64_signed(insn: BpfInsn)
    ensures
        imm_operand(insn, true) as i64 == insn.imm,
{
    let i = insn.imm;
    assert((i as i64 as u64) as i64 == i) by (bit_vector);
}

/// Subtracting a known scalar from a frame pointer moves it down by that
/// scalar: the frame pointer at `o`, less the immediate `k`, is the frame
/// pointer at `o - k` (where that offset fits).
pub proof fn lemma_frame_ptr_sub_imm(state: VerifierState, insn: BpfInsn, o: i64)
    requires
        state.reg(insn.dst).reg_type == (RegType::FramePtr { offset: o }),
        i64::MIN <= o - insn.imm <= i64::MAX,
    ensures
        alu_outcome(state, insn, AluOp::Sub, Source::Imm, true) matches Ok(v) && v.reg_type == (RegType::FramePtr {
            offset: (o - insn.imm) as i64,
        }),
{
    lemma_imm64_signed(insn);
}

/// On a pointer, subtracting the immediate `k` and adding the immediate
/// `-k` give the same register.
pub proof fn lemma_ptr_sub_is_add_neg(state: VerifierState, sub: BpfInsn, add: BpfInsn)
    requires
        state.reg(sub.dst).reg_type.is_pointer(),
        add == (BpfInsn { imm: add.imm, ..sub }),
        add.imm == -sub.imm,
    ensures
        alu_outcome(state, sub, AluOp::Sub, Source::Imm, true) == alu_outcome(state, add, AluOp::Add, Source::Imm, true),
{
    lemma_imm64_signed(sub);
    lemma_imm64_signed(add);
}

/// The scalar ALU on tnums is sound: when the operands stand for `x` and
/// `y`, the result stands for the value the operation computes. This holds
/// for every binary operation, with shift amounts below 64.
pub proof fn lemma_alu_tnum_sound(op: AluOp, a: Tnum, b: Tnum, x: u64, y: u64)
    requires
        a.wf(),
        b.wf(),
        a.contains(x),
        b.contains(y),
        !(op is Mov || op is Neg),
        (op is Lsh || op is Rsh || op is Arsh) ==> y < 64,
    ensures
        alu_tnum(op, a, b).contains(alu_value(op, x, y)),
{
    let z = alu_value(op, x, y);
    lemma_tnum_constant_unknown(0, z);
    lemma_tnum_constant_unknown(a.value, x);
    lemma_tnum_constant_unknown(b.value, y);
    lemma_tnum_constant_unknown(z, z);
    match op {
        AluOp::Add => lemma_tnum_add_sound(a, b, x, y),
        AluOp::Sub => lemma_tnum_sub_sound(a, b, x, y),
        AluOp::And => lemma_tnum_and_sound(a, b, x, y),
        AluOp::Or => lemma_tnum_or_sound(a, b, x, y),
        AluOp::Xor => lemma_tnum_xor_sound(a, b, x, y),
        AluOp::Lsh | AluOp::Rsh => {
            if b.mask == 0 {
                assert(y as u32 == y);
                lemma_tnum_shift_sound(a, x, y as u32);
            }
        },
        AluOp::Arsh => {
            if a.mask == 0 && b.mask == 0 {
                assert(y & 63 == y) by (bit_vector)
                    requires y < 64;
            }
        },
        _ => {},
    }
}

/// Whether a 64-bit conditional jump is taken for `x` against `val`.
pub open spec fn jump_taken_64(op: JmpOp, x: u64, val: u64) -> bool {
    match op {
        JmpOp::Ja => true,
        JmpOp::Jeq => x == val,
        JmpOp::Jne => x != val,
        JmpOp::Jgt => x > val,
        JmpOp::Jge => x >= val,
        JmpOp::Jlt => x < val,
        JmpOp::Jle => x <= val,
        JmpOp::Jset => x & val != 0,
        JmpOp::Jsgt => (x as i64) > (val as i64),
        JmpOp::Jsge => (x as i64) >= (val as i64),
        JmpOp::Jslt => (x as i64) < (val as i64),
        JmpOp::Jsle => (x as i64) <= (val as i64),
    }
}

/// Whether a 32-bit conditional jump, which compares the low 32 bits, is
/// taken for `x` against `val`.
pub open spec fn jump_taken_32(op: JmpOp, x: u64, val: u64) -> bool {
    let a = (x & 0xFFFF_FFFF) as u32;
    let b = (val & 0xFFFF_FFFF) as u32;
    match op {
        JmpOp::Ja => true,
        JmpOp::Jeq => a == b,
        JmpOp::Jne => a != b,
        JmpOp::Jgt => a > b,
        JmpOp::Jge => a >= b,
        JmpOp::Jlt => a < b,
        JmpOp::Jle => a <= b,
        JmpOp::Jset => a & b != 0,
        JmpOp::Jsgt => (a as i32) > (b as i32),
        JmpOp::Jsge => (a as i32) >= (b as i32),
        JmpOp::Jslt => (a as i32) < (b as i32),
        JmpOp::Jsle => (a as i32) <= (b as i32),
    }
}

/// Register state on the taken side of a 64-bit comparison of a scalar
/// against `val`.
pub open spec fn taken_64(r: RegState, op: JmpOp, val: u64) -> RegState {
    let sval = val as i64;
    match op {
        JmpOp::Jeq => known_scalar(val),
        JmpOp::Jgt => RegState { umin: max_u(r.umin, inc_u(val)), ..r }.refined(),
        JmpOp::Jge => RegState { umin: max_u(r.umin, val), ..r }.refined(),
        JmpOp::Jlt => RegState { umax: min_u(r.umax, dec_u(val)), ..r }.refined(),
        JmpOp::Jle => RegState { umax: min_u(r.umax, val), ..r }.refined(),
        JmpOp::Jsgt => RegState { smin: max_i(r.smin, inc_i(sval)), ..r }.refined(),
        JmpOp::Jsge => RegState { smin: max_i(r.smin, sval), ..r }.refined(),
        JmpOp::Jslt => RegState { smax: min_i(r.smax, dec_i(sval)), ..r }.refined(),
        JmpOp::Jsle => RegState { smax: min_i(r.smax, sval), ..r }.refined(),
        JmpOp::Jne | JmpOp::Jset | JmpOp::Ja => r,
    }
}

/// Register state on the fall-through side of a 64-bit comparison of a
/// scalar against `val`.
pub open spec fn fall_64(r: RegState, op: JmpOp, val: u64) -> RegState {
    let sval = val as i64;
    match op {
        JmpOp::Jne => known_scalar(val),
        JmpOp::Jgt => RegState { umax: min_u(r.umax, val), ..r }.refined(),
        JmpOp::Jge => RegState { umax: min_u(r.umax, dec_u(val)), ..r }.refined(),
        JmpOp::Jlt => RegState { umin: max_u(r.umin, val), ..r }.refined(),
        JmpOp::Jle => RegState { umin: max_u(r.umin, inc_u(val)), ..r }.refined(),
        JmpOp::Jsgt => RegState { smax: min_i(r.smax, sval), ..r }.refined(),
        JmpOp::Jsge => RegState { smax: min_i(r.smax, dec_i(sval)), ..r }.refined(),
        JmpOp::Jslt => RegState { smin: max_i(r.smin, sval), ..r }.refined(),
        JmpOp::Jsle => RegState { smin: max_i(r.smin, inc_i(sval)), ..r }.refined(),
        JmpOp::Jeq | JmpOp::Jset | JmpOp::Ja => r,
    }
}

/// Unsigned bounds narrowed to `[lo, hi]`, only when the whole range is
/// within 32 bits (otherwise the upper bits are unknown and nothing can be
/// learnt from a 32-bit comparison).
pub open spec fn clamp32(r: RegState, lo: u64, hi: u64) -> RegState {
    if r.umax <= 0xFFFF_FFFF { RegState { umin: max_u(r.umin, lo), umax: min_u(r.umax, hi), ..r } } else { r }
}

/// The state with its low 32 bits known to be `v`.
pub open spec fn low32_is(r: RegState, v: u64) -> RegState {
    RegState {
        tnum: Tnum { value: (r.tnum.value & !0xFFFF_FFFFu64) | v, mask: r.tnum.mask & !0xFFFF_FFFFu64 },
        ..clamp32(r, v, v)
    }.refined()
}

/// Signed bounds narrowed, only when the whole range is within 32 bits.
pub open spec fn sclamp32(r: RegState, lo: i64, hi: i64) -> RegState {
    if r.umax <= 0xFFFF_FFFF { RegState { smin: max_i(r.smin, lo), smax: min_i(r.smax, hi), ..r }.refined() } else { r }
}

/// Register state on the taken side of a 32-bit comparison of a scalar
/// against `val`.
pub open spec fn taken_32(r: RegState, op: JmpOp, val: u64) -> RegState {
    let v = val & 0xFFFF_FFFF;
    let sval = (v as i32) as i64;
    match op {
        JmpOp::Jeq => low32_is(r, v),
        JmpOp::Jgt => clamp32(r, inc_u(v), u64::MAX).refined(),
        JmpOp::Jge => clamp32(r, v, u64::MAX).refined(),
        JmpOp::Jlt => clamp32(r, 0, dec_u(v)).refined(),
        JmpOp::Jle => clamp32(r, 0, v).refined(),
        JmpOp::Jsgt => sclamp32(r, inc_i(sval), i64::MAX),
        JmpOp::Jsge => sclamp32(r, sval, i64::MAX),
        JmpOp::Jslt => sclamp32(r, i64::MIN, dec_i(sval)),
        JmpOp::Jsle => sclamp32(r, i64::MIN, sval),
        JmpOp::Jne | JmpOp::Jset | JmpOp::Ja => r,
    }
}

/// Register state on the fall-through side of a 32-bit comparison of a
/// scalar against `val`.
pub open spec fn fall_32(r: RegState, op: JmpOp, val: u64) -> RegState {
    let v = val & 0xFFFF_FFFF;
    let sval = (v as i32) as i64;
    match op {
        JmpOp::Jne => low32_is(r, v),
        JmpOp::Jgt => clamp32(r, 0, v).refined(),
        JmpOp::Jge => clamp32(r, 0, dec_u(v)).refined(),
        JmpOp::Jlt => clamp32(r, v, u64::MAX).refined(),
        JmpOp::Jle => clamp32(r, inc_u(v), u64::MAX).refined(),
        JmpOp::Jsgt => sclamp32(r, i64::MIN, sval),
        JmpOp::Jsge => sclamp32(r, i64::MIN, dec_i(sval)),
        JmpOp::Jslt => sclamp32(r, sval, i64::MAX),
        JmpOp::Jsle => sclamp32(r, inc_i(sval), i64::MAX),
        JmpOp::Jeq | JmpOp::Jset | JmpOp::Ja => r,
    }
}

fn with_umin(r: &RegState, lo: u64) -> (s: RegState)
    ensures
        s == (RegState { umin: max_u(r.umin, lo), ..*r }).refined(),
{
    let mut s = r.dup();
    if lo > s.umin {
        s.umin = lo;
    }
    s.refine_bounds();
    s
}

fn with_umax(r: &RegState, hi: u64) -> (s: RegState)
    ensures
        s == (RegState { umax: min_u(r.umax, hi), ..*r }).refined(),
{
    let mut s = r.dup();
    if hi < s.umax {
        s.umax = hi;
    }
    s.refine_bounds();
    s
}

fn with_smin(r: &RegState, lo: i64) -> (s: RegState)
    ensures
        s == (RegState { smin: max_i(r.smin, lo), ..*r }).refined(),
{
    let mut s = r.dup();
    if lo > s.smin {
        s.smin = lo;
    }
    s.refine_bounds();
    s
}

fn with_smax(r: &RegState, hi: i64) -> (s: RegState)
    ensures
        s == (RegState { smax: min_i(r.smax, hi), ..*r }).refined(),
{
    let mut s = r.dup();
    if hi < s.smax {
        s.smax = hi;
    }
    s.refine_bounds();
    s
}

fn clamp_u32(r: &RegState, lo: u64, hi: u64) -> (s: RegState)
    ensures
        s == clamp32(*r, lo, hi).refined(),
{
    let mut s = r.dup();
    if s.umax <= 0xFFFF_FFFF {
        if lo > s.umin {
            s.umin = lo;
        }
        if hi < s.umax {
            s.umax = hi;
        }
    }
    s.refine_bounds();
    s
}

fn clamp_s32(r: &RegState, lo: i64, hi: i64) -> (s: RegState)
    ensures
        s == sclamp32(*r, lo, hi),
{
    let mut s = r.dup();
    if s.umax <= 0xFFFF_FFFF {
        if lo > s.smin {
            s.smin = lo;
        }
        if hi < s.smax {
            s.smax = hi;
        }
        s.refine_bounds();
    }
    s
}

fn set_low32(r: &RegState, v: u64) -> (s: RegState)
    ensures
        s == low32_is(*r, v),
{
    let mut s = r.dup();
    s.tnum = Tnum { value: (s.tnum.value & !0xFFFF_FFFFu64) | v, mask: s.tnum.mask & !0xFFFF_FFFFu64 };
    if s.umax <= 0xFFFF_FFFF {
        if v > s.umin {
            s.umin = v;
        }
        if v < s.umax {
            s.umax = v;
        }
    }
    s.refine_bounds();
    s
}

/// The taken and fall-through states of a 64-bit comparison of a scalar.
pub fn refine_scalar_64(r: &RegState, op: JmpOp, val: u64) -> (p: (RegState, RegState))
    ensures
        p.0 == taken_64(*r, op, val),
        p.1 == fall_64(*r, op, val),
{
    let sval = val as i64;
    match op {
        JmpOp::Jeq => (RegState::scalar_value(val), r.dup()),
        JmpOp::Jne => (r.dup(), RegState::scalar_value(val)),
        JmpOp::Jgt => (with_umin(r, sat_inc_u(val)), with_umax(r, val)),
        JmpOp::Jge => (with_umin(r, val), with_umax(r, sat_dec_u(val))),
        JmpOp::Jlt => (with_umax(r, sat_dec_u(val)), with_umin(r, val)),
        JmpOp::Jle => (with_umax(r, val), with_umin(r, sat_inc_u(val))),
        JmpOp::Jsgt => (with_smin(r, sat_inc_i(sval)), with_smax(r, sval)),
        JmpOp::Jsge => (with_smin(r, sval), with_smax(r, sat_dec_i(sval))),
        JmpOp::Jslt => (with_smax(r, sat_dec_i(sval)), with_smin(r, sval)),
        JmpOp::Jsle => (with_smax(r, sval), with_smin(r, sat_inc_i(sval))),
        JmpOp::Jset | JmpOp::Ja => (r.dup(), r.dup()),
    }
}

/// The taken and fall-through states of a 32-bit comparison of a scalar:
/// only the low 32 bits were compared, so the 64-bit bounds are narrowed
/// only when the whole range is within 32 bits.
pub fn refine_scalar_32(r: &RegState, op: JmpOp, val: u64) -> (p: (RegState, RegState))
    ensures
        p.0 == taken_32(*r, op, val),
        p.1 == fall_32(*r, op, val),
{
    let v = val & 0xFFFF_FFFF;
    let sval = (v as i32) as i64;
    match op {
        JmpOp::Jeq => (set_low32(r, v), r.dup()),
        JmpOp::Jne => (r.dup(), set_low32(r, v)),
        JmpOp::Jgt => (clamp_u32(r, sat_inc_u(v), u64::MAX), clamp_u32(r, 0, v)),
        JmpOp::Jge => (clamp_u32(r, v, u64::MAX), clamp_u32(r, 0, sat_dec_u(v))),
        JmpOp::Jlt => (clamp_u32(r, 0, sat_dec_u(v)), clamp_u32(r, v, u64::MAX)),
        JmpOp::Jle => (clamp_u32(r, 0, v), clamp_u32(r, sat_inc_u(v), u64::MAX)),
        JmpOp::Jsgt => (clamp_s32(r, sat_inc_i(sval), i64::MAX), clamp_s32(r, i64::MIN, sval)),
        JmpOp::Jsge => (clamp_s32(r, sval, i64::MAX), clamp_s32(r, i64::MIN, sat_dec_i(sval))),
        JmpOp::Jslt => (clamp_s32(r, i64::MIN, sat_dec_i(sval)), clamp_s32(r, sval, i64::MAX)),
        JmpOp::Jsle => (clamp_s32(r, i64::MIN, sval), clamp_s32(r, sat_inc_i(sval), i64::MAX)),
        JmpOp::Jset | JmpOp::Ja => (r.dup(), r.dup()),
    }
}

proof fn lemma_known_contains(v: u64)
    ensures
        known_scalar(v).contains(v),
{
    assert(v & !0u64 == v) by (bit_vector);
}

/// Refining a 64-bit comparison keeps every value: a value the scalar
/// state stands for is still stood for on the side of the branch that the
/// value takes.
pub proof fn lemma_branch_64_sound(r: RegState, op: JmpOp, val: u64, x: u64)
    requires
        r.contains(x),
    ensures
        jump_taken_64(op, x, val) ==> taken_64(r, op, val).contains(x),
        !jump_taken_64(op, x, val) ==> fall_64(r, op, val).contains(x),
{
    let sval = val as i64;
    lemma_known_contains(val);
    match op {
        JmpOp::Jgt => {
            lemma_refine_sound(RegState { umin: max_u(r.umin, inc_u(val)), ..r }, x);
            lemma_refine_sound(RegState { umax: min_u(r.umax, val), ..r }, x);
        },
        JmpOp::Jge => {
            lemma_refine_sound(RegState { umin: max_u(r.umin, val), ..r }, x);
            lemma_refine_sound(RegState { umax: min_u(r.umax, dec_u(val)), ..r }, x);
        },
        JmpOp::Jlt => {
            lemma_refine_sound(RegState { umax: min_u(r.umax, dec_u(val)), ..r }, x);
            lemma_refine_sound(RegState { umin: max_u(r.umin, val), ..r }, x);
        },
        JmpOp::Jle => {
            lemma_refine_sound(RegState { umax: min_u(r.umax, val), ..r }, x);
            lemma_refine_sound(RegState { umin: max_u(r.umin, inc_u(val)), ..r }, x);
        },
        JmpOp::Jsgt => {
            lemma_refine_sound(RegState { smin: max_i(r.smin, inc_i(sval)), ..r }, x);
            lemma_refine_sound(RegState { smax: min_i(r.smax, sval), ..r }, x);
        },
        JmpOp::Jsge => {
            lemma_refine_sound(RegState { smin: max_i(r.smin, sval), ..r }, x);
            lemma_refine_sound(RegState { smax: min_i(r.smax, dec_i(sval)), ..r }, x);
        },
        JmpOp::Jslt => {
            lemma_refine_sound(RegState { smax: min_i(r.smax, dec_i(sval)), ..r }, x);
            lemma_refine_sound(RegState { smin: max_i(r.smin, sval), ..r }, x);
        },
        JmpOp::Jsle => {
            lemma_refine_sound(RegState { smax: min_i(r.smax, sval), ..r }, x);
            lemma_refine_sound(RegState { smin: max_i(r.smin, inc_i(sval)), ..r }, x);
        },
        _ => {},
    }
}

proof fn lemma_low32_is_sound(r: RegState, x: u64, v: u64)
    requires
        r.contains(x),
        x & 0xFFFF_FFFF == v,
    ensures
        low32_is(r, v).contains(x),
{
    let m = RegState {
        tnum: Tnum { value: (r.tnum.value & !0xFFFF_FFFFu64) | v, mask: r.tnum.mask & !0xFFFF_FFFFu64 },
        ..clamp32(r, v, v)
    };
    let (tv, tm) = (r.tnum.value, r.tnum.mask);
    assert(x & !tm == tv && x & 0xFFFF_FFFF == v ==> x & !(tm & !0xFFFF_FFFFu64) == (tv & !0xFFFF_FFFFu64) | v)
        by (bit_vector);
    assert(x <= 0xFFFF_FFFF ==> x & 0xFFFF_FFFF == x) by (bit_vector);
    lemma_refine_sound(m, x);
}

/// Refining a 32-bit comparison keeps every value, for the unsigned
/// comparisons and, for the signed ones, for values below 2^31 (where the
/// low 32 bits read as `i32` agree with the whole value read as `i64`).
pub proof fn lemma_branch_32_sound(r: RegState, op: JmpOp, val: u64, x: u64)
    requires
        r.contains(x),
        (op is Jsgt || op is Jsge || op is Jslt || op is Jsle) ==> x < 0x8000_0000,
    ensures
        jump_taken_32(op, x, val) ==> taken_32(r, op, val).contains(x),
        !jump_taken_32(op, x, val) ==> fall_32(r, op, val).contains(x),
{
    let v = val & 0xFFFF_FFFF;
    let sval = (v as i32) as i64;
    let a = (x & 0xFFFF_FFFF) as u32;
    let b = v as u32;
    assert(x <= 0xFFFF_FFFF ==> x & 0xFFFF_FFFF == x) by (bit_vector);
    assert(v <= 0xFFFF_FFFF) by (bit_vector)
        requires v == val & 0xFFFF_FFFF;
    assert(x < 0x8000_0000 ==> (a as i32) as int == x as int && (x as i64) as int == x as int) by (bit_vector)
        requires a == (x & 0xFFFF_FFFF) as u32;
    assert((b as i32) as int == sval as int) by (bit_vector)
        requires b == v as u32, sval == (v as i32) as i64, v <= 0xFFFF_FFFF;
    match op {
        JmpOp::Jeq | JmpOp::Jne => {
            assert(a == b ==> x & 0xFFFF_FFFF == v) by (bit_vector)
                requires a == (x & 0xFFFF_FFFF) as u32, b == v as u32, v == val & 0xFFFF_FFFF;
            if a == b {
                lemma_low32_is_sound(r, x, v);
            }
        },
        JmpOp::Jgt => {
            lemma_refine_sound(clamp32(r, inc_u(v), u64::MAX), x);
            lemma_refine_sound(clamp32(r, 0, v), x);
        },
        JmpOp::Jge => {
            lemma_refine_sound(clamp32(r, v, u64::MAX), x);
            lemma_refine_sound(clamp32(r, 0, dec_u(v)), x);
        },
        JmpOp::Jlt => {
            lemma_refine_sound(clamp32(r, 0, dec_u(v)), x);
            lemma_refine_sound(clamp32(r, v, u64::MAX), x);
        },
        JmpOp::Jle => {
            lemma_refine_sound(clamp32(r, 0, v), x);
            lemma_refine_sound(clamp32(r, inc_u(v), u64::MAX), x);
        },
        JmpOp::Jsgt => {
            lemma_refine_sound(RegState { smin: max_i(r.smin, inc_i(sval)), smax: min_i(r.smax, i64::MAX), ..r }, x);
            lemma_refine_sound(RegState { smin: max_i(r.smin, i64::MIN), smax: min_i(r.smax, sval), ..r }, x);
        },
        JmpOp::Jsge => {
            lemma_refine_sound(RegState { smin: max_i(r.smin, sval), smax: min_i(r.smax, i64::MAX), ..r }, x);
            lemma_refine_sound(RegState { smin: max_i(r.smin, i64::MIN), smax: min_i(r.smax, dec_i(sval)), ..r }, x);
        },
        JmpOp::Jslt => {
            lemma_refine_sound(RegState { smin: max_i(r.smin, i64::MIN), smax: min_i(r.smax, dec_i(sval)), ..r }, x);
            lemma_refine_sound(RegState { smin: max_i(r.smin, sval), smax: min_i(r.smax, i64::MAX), ..r }, x);
        },
        JmpOp::Jsle => {
            lemma_refine_sound(RegState { smin: max_i(r.smin, i64::MIN), smax: min_i(r.smax, sval), ..r }, x);
            lemma_refine_sound(RegState { smin: max_i(r.smin, inc_i(sval)), smax: min_i(r.smax, i64::MAX), ..r }, x);
        },
        _ => {},
    }
}

/// Every register after the null check of allocation `id` resolved it to
/// `t` (see `resolve_nullable`).
pub open spec fn regs_resolved(before: VerifierState, after: VerifierState, id: usize, t: RegType) -> bool {
    forall|i: int| 0 <= i < 11 ==> #[trigger] after.regs@[i] == resolve_nullable(before.regs@[i], id, t)
}

/// Every spilled register after the null check of allocation `id`
/// resolved it to `t`; the written bytes are unchanged.
pub open spec fn stack_resolved(before: StackState, after: StackState, id: usize, t: RegType) -> bool {
    &&& after.wf()
    &&& forall|i: int| #[trigger] after.written(i) == before.written(i)
    &&& after.spill_map().dom() == before.spill_map().dom()
    &&& forall|o: i64| #[trigger] before.spill_map().contains_key(o) ==> after.spill_map()[o]
        == resolve_nullable(before.spill_map()[o], id, t)
}

/// Refine all registers that hold a nullable pointer of allocation
/// `ptr_id`: to null on the null branch, to the pointer type on the other.
pub fn refine_all_with_id(state: &mut VerifierState, ptr_id: usize, new_type: &RegType)
    ensures
        regs_resolved(*old(state), *final(state), ptr_id, *new_type),
{
    let mut i: usize = 0;
    while i < 11
        invariant
            i <= 11,
            forall|j: int| 0 <= j < i ==> #[trigger] state.regs@[j] == resolve_nullable(old(state).regs@[j], ptr_id, *new_type),
            forall|j: int| i <= j < 11 ==> #[trigger] state.regs@[j] == old(state).regs@[j],
        decreases 11 - i,
    {
        let hit = match &state.regs[i].reg_type {
            RegType::PtrOrNull { id, .. } => *id == ptr_id,
            _ => false,
        };
        if hit {
            if new_type.is_null() {
                state.regs[i] = RegState::null();
            } else {
                let mut refined = state.regs[i].dup();
                refined.reg_type = new_type.dup();
                state.regs[i] = refined;
            }
        }
        i = i + 1;
    }
}

/// Refine all stack spills that hold a nullable pointer of allocation
/// `ptr_id`.
pub fn refine_spills_with_id(stack: &mut StackState, ptr_id: usize, new_type: &RegType)
    requires
        old(stack).wf(),
    ensures
        stack_resolved(*old(stack), *final(stack), ptr_id, *new_type),
{
    stack.refine_spills(ptr_id, new_type);
}

/// The compared value of a conditional jump: the immediate (zero-extended
/// for 32-bit jumps, sign-extended for 64-bit ones), or the source
/// register's value when it is known.
pub open spec fn jump_operand(state: VerifierState, insn: BpfInsn, src: Source, is_32: bool) -> Option<u64> {
    match src {
        Source::Imm => Some(if is_32 { insn.imm as u32 as u64 } else { insn.imm as i64 as u64 }),
        Source::Reg => known(state.reg(insn.src).tnum),
    }
}

/// A null check: a comparison of a nullable pointer with zero, giving its
/// allocation id and the pointer type it has when not null.
pub open spec fn null_check(state: VerifierState, insn: BpfInsn, src: Source, is_32: bool) -> Option<(usize, RegType)> {
    if jump_operand(state, insn, src, is_32) == Some(0u64) {
        match state.reg(insn.dst).reg_type {
            RegType::PtrOrNull { inner, id, .. } => Some((id, *inner)),
            _ => None,
        }
    } else {
        None
    }
}

/// How a conditional jump refines the states of its two sides (both start
/// from the state before the jump): a null check resolves the allocation's
/// registers and spills to null on the equal side and to the pointer on
/// the other; a comparison of a scalar with a known value narrows its
/// bounds on each side.
pub open spec fn refine_post(
    taken: VerifierState,
    taken_stack: StackState,
    fall: VerifierState,
    fall_stack: StackState,
    insn: BpfInsn,
    op: JmpOp,
    src: Source,
    is_32: bool,
    taken2: VerifierState,
    taken_stack2: StackState,
    fall2: VerifierState,
    fall_stack2: StackState,
) -> bool {
    match null_check(fall, insn, src, is_32) {
        Some((id, inner)) => if op is Jeq {
            &&& regs_resolved(taken, taken2, id, RegType::Null)
            &&& stack_resolved(taken_stack, taken_stack2, id, RegType::Null)
            &&& regs_resolved(fall, fall2, id, inner)
            &&& stack_resolved(fall_stack, fall_stack2, id, inner)
        } else if op is Jne {
            &&& regs_resolved(taken, taken2, id, inner)
            &&& stack_resolved(taken_stack, taken_stack2, id, inner)
            &&& regs_resolved(fall, fall2, id, RegType::Null)
            &&& stack_resolved(fall_stack, fall_stack2, id, RegType::Null)
        } else {
            &&& taken2 == taken && taken_stack2 == taken_stack
            &&& fall2 == fall && fall_stack2 == fall_stack
        },
        None => {
            let d = insn.dst.num() as int;
            &&& taken_stack2 == taken_stack && fall_stack2 == fall_stack
            &&& match jump_operand(fall, insn, src, is_32) {
                Some(v) => if fall.reg(insn.dst).reg_type is Scalar {
                    &&& taken2.regs@ == taken.regs@.update(d, if is_32 {
                        taken_32(taken.reg(insn.dst), op, v) } else { taken_64(taken.reg(insn.dst), op, v) })
                    &&& fall2.regs@ == fall.regs@.update(d, if is_32 {
                        fall_32(fall.reg(insn.dst), op, v) } else { fall_64(fall.reg(insn.dst), op, v) })
                } else {
                    taken2 == taken && fall2 == fall
                },
                None => taken2 == taken && fall2 == fall,
            }
        },
    }
}

/// Refine register types on the taken and fall-through paths of a
/// conditional jump (both start from the state before the jump).
///
/// A null check `if (ptr == 0)` makes every register and spill of that
/// allocation null on the equal side and a valid pointer on the other. A
/// comparison of a scalar with a known value narrows its bounds.
pub fn refine_branch(
    taken: &mut VerifierState,
    taken_stack: &mut StackState,
    fall: &mut VerifierState,
    fall_stack: &mut StackState,
    insn: &BpfInsn,
    op: JmpOp,
    src: Source,
    is_32: bool,
)
    requires
        old(taken_stack).wf(),
        old(fall_stack).wf(),
    ensures
        final(taken_stack).wf(),
        final(fall_stack).wf(),
        refine_post(*old(taken), *old(taken_stack), *old(fall), *old(fall_stack), *insn, op, src, is_32, *final(taken),
            *final(taken_stack), *final(fall), *final(fall_stack)),
{
    let dst = insn.dst;
    let operand: Option<u64> = match src {
        Source::Imm => Some(if is_32 { insn.imm as u32 as u64 } else { insn.imm as i64 as u64 }),
        Source::Reg => fall.get(insn.src).tnum.known_value(),
    };
    if let Some(0) = operand {
        let nullable: Option<(usize, RegType)> = match &fall.get(dst).reg_type {
            RegType::PtrOrNull { inner, id, .. } => Some((*id, (**inner).dup())),
            _ => None,
        };
        if let Some((ptr_id, inner)) = nullable {
            let null = RegType::Null;
            match op {
                JmpOp::Jeq => {
                    refine_all_with_id(taken, ptr_id, &null);
                    refine_spills_with_id(taken_stack, ptr_id, &null);
                    refine_all_with_id(fall, ptr_id, &inner);
                    refine_spills_with_id(fall_stack, ptr_id, &inner);
                },
                JmpOp::Jne => {
                    refine_all_with_id(taken, ptr_id, &inner);
                    refine_spills_with_id(taken_stack, ptr_id, &inner);
                    refine_all_with_id(fall, ptr_id, &null);
                    refine_spills_with_id(fall_stack, ptr_id, &null);
                },
                _ => {},
            }
            return;
        }
    }
    if let Some(val) = operand {
        if fall.get(dst).reg_type.is_scalar() {
            if is_32 {
                let (t, _) = refine_scalar_32(taken.get(dst), op, val);
                let (_, f) = refine_scalar_32(fall.get(dst), op, val);
                taken.set(dst, t);
                fall.set(dst, f);
            } else {
                let (t, _) = refine_scalar_64(taken.get(dst), op, val);
                let (_, f) = refine_scalar_64(fall.get(dst), op, val);
                taken.set(dst, t);
                fall.set(dst, f);
            }
        }
    }
}

/// The key errors are told apart by: instruction and kind.
pub open spec fn error_key(e: VerifyError) -> (usize, u16) {
    (e.pc, e.kind.code())
}

/// The errors with only the first of each key kept, in order.
pub open spec fn keep_first(s: Seq<VerifyError>) -> Seq<VerifyError>
    decreases s.len(),
{
    if s.len() == 0 {
        s
    } else {
        let p = keep_first(s.drop_last());
        if exists|k: int| 0 <= k < p.len() && error_key(p[k]) == error_key(s.last()) { p } else { p.push(s.last()) }
    }
}

proof fn lemma_keep_first_step(s: Seq<VerifyError>)
    requires
        s.len() > 0,
    ensures
        ({
            let p = keep_first(s.drop_last());
            keep_first(s) == if exists|k: int| 0 <= k < p.len() && error_key(p[k]) == error_key(s.last()) {
                p
            } else {
                p.push(s.last())
            }
        }),
{
}

/// Deduplication only keeps input errors.
pub proof fn lemma_keep_first_subset(s: Seq<VerifyError>)
    ensures
        forall|k: int| 0 <= k < keep_first(s).len() ==> exists|j: int| 0 <= j < s.len() && #[trigger] keep_first(s)[k] == s[j],
    decreases s.len(),
{
    if s.len() > 0 {
        let t = s.drop_last();
        lemma_keep_first_subset(t);
        lemma_keep_first_step(s);
        let p = keep_first(t);
        let q = keep_first(s);
        assert forall|k: int| 0 <= k < q.len() implies exists|j: int| 0 <= j < s.len() && #[trigger] q[k] == s[j] by {
            if k < p.len() {
                assert(q[k] == p[k]);
                let j = choose|j: int| 0 <= j < t.len() && p[k] == t[j];
                assert(s[j] == t[j]);
            } else {
                assert(q[k] == s[s.len() - 1]);
            }
        }
    }
}

/// Deduplication keeps an error of every key (instruction and kind) that
/// occurs in the input.
pub proof fn lemma_keep_first_cover(s: Seq<VerifyError>)
    ensures
        forall|j: int| 0 <= j < s.len() ==> exists|k: int| 0 <= k < keep_first(s).len()
            && error_key(#[trigger] keep_first(s)[k]) == error_key(#[trigger] s[j]),
    decreases s.len(),
{
    if s.len() > 0 {
        let t = s.drop_last();
        lemma_keep_first_cover(t);
        lemma_keep_first_step(s);
        let p = keep_first(t);
        let q = keep_first(s);
        let last = s.last();
        let dup = exists|k: int| 0 <= k < p.len() && error_key(p[k]) == error_key(last);
        assert forall|j: int| 0 <= j < s.len() implies exists|k: int| 0 <= k < q.len()
            && error_key(#[trigger] q[k]) == error_key(#[trigger] s[j]) by {
            if j < t.len() {
                assert(s[j] == t[j]);
                let k = choose|k: int| 0 <= k < p.len() && error_key(#[trigger] p[k]) == error_key(#[trigger] t[j]);
                assert(q[k] == p[k]);
            } else if dup {
                let k = choose|k: int| 0 <= k < p.len() && error_key(p[k]) == error_key(last);
                assert(q[k] == p[k]);
            } else {
                assert(q[p.len() as int] == last);
            }
        }
    }
}

/// Deduplication keeps no key twice.
pub proof fn lemma_keep_first_distinct(s: Seq<VerifyError>)
    ensures
        forall|k1: int, k2: int| 0 <= k1 < k2 < keep_first(s).len() ==>
            error_key(#[trigger] keep_first(s)[k1]) != error_key(#[trigger] keep_first(s)[k2]),
    decreases s.len(),
{
    if s.len() > 0 {
        let t = s.drop_last();
        lemma_keep_first_distinct(t);
        lemma_keep_first_step(s);
        let p = keep_first(t);
        let q = keep_first(s);
        let last = s.last();
        let dup = exists|k: int| 0 <= k < p.len() && error_key(p[k]) == error_key(last);
        assert forall|k1: int, k2: int| 0 <= k1 < k2 < q.len() implies
            error_key(#[trigger] q[k1]) != error_key(#[trigger] q[k2]) by {
            assert(q[k1] == p[k1]);
            if k2 < p.len() {
                assert(q[k2] == p[k2]);
            } else {
                assert(!dup);
                assert(q[k2] == last);
            }
        }
    }
}

fn dedup_errors(errors: &Vec<VerifyError>) -> (r: Vec<VerifyError>)
    ensures
        r@ == keep_first(errors@),
{
    let mut out: Vec<VerifyError> = Vec::new();
    let mut i: usize = 0;
    while i < errors.len()
        invariant
            i <= errors@.len(),
            out@ == keep_first(errors@.take(i as int)),
        decreases errors@.len() - i,
    {
        let e = &errors[i];
        let key_code = error_code(&e.kind);
        let mut seen = false;
        let mut k: usize = 0;
        while k < out.len()
            invariant
                k <= out@.len(),
                key_code == e.kind.code(),
                !seen ==> forall|q: int| 0 <= q < k ==> error_key(#[trigger] out@[q]) != error_key(*e),
                seen ==> exists|q: int| 0 <= q < out@.len() && error_key(#[trigger] out@[q]) == error_key(*e),
            decreases out@.len() - k,
        {
            if out[k].pc == e.pc && error_code(&out[k].kind) == key_code {
                seen = true;
                assert(error_key(out@[k as int]) == error_key(*e));
            }
            k = k + 1;
        }
        assert(errors@.take(i + 1).drop_last() =~= errors@.take(i as int));
        assert(errors@.take(i + 1).last() == errors@[i as int]);
        if !seen {
            out.push(e.dup());
        }
        i = i + 1;
    }
    assert(errors@.take(errors@.len() as int) =~= errors@);
    out
}

/// A deferred branch target on the backtrack stack.
pub struct WorkItem {
    pub pc: usize,
    pub state: VerifierState,
    pub stack: StackState,
}

/// Whether an explored state at this instruction subsumes the current one.
fn subsumed(row: &Vec<(VerifierState, StackState)>, state: &VerifierState, stack: &StackState) -> (b: bool)
    ensures
        b == exists|k: int| 0 <= k < row@.len() && state.substate(#[trigger] row@[k].0) && stack.covers(row@[k].1),
{
    let mut k: usize = 0;
    while k < row.len()
        invariant
            k <= row@.len(),
            forall|q: int| 0 <= q < k ==> !(state.substate(#[trigger] row@[q].0) && stack.covers(row@[q].1)),
        decreases row@.len() - k,
    {
        if state.is_substate_of(&row[k].0) && stack.is_substate_of(&row[k].1) {
            return true;
        }
        k = k + 1;
    }
    false
}

fn has_complexity_error(errors: &Vec<VerifyError>) -> (b: bool)
    ensures
        b == exists|k: int| 0 <= k < errors@.len() && (#[trigger] errors@[k])@.kind is ComplexityExceeded,
{
    let mut k: usize = 0;
    while k < errors.len()
        invariant
            k <= errors@.len(),
            forall|q: int| 0 <= q < k ==> !((#[trigger] errors@[q]).kind is ComplexityExceeded),
        decreases errors@.len() - k,
    {
        if matches!(errors[k].kind, ErrorKind::ComplexityExceeded { .. }) {
            return true;
        }
        k = k + 1;
    }
    false
}

/// The ALU operation of an ALU instruction.
pub open spec fn alu_op(insn: BpfInsn) -> Option<AluOp> {
    match insn.opcode {
        Opcode::Alu64(op, _) | Opcode::Alu32(op, _) => Some(op),
        _ => None,
    }
}

/// Whether an error of kind `k` can come from instruction `insn`: each
/// kind is raised only by the instructions that perform the check.
pub open spec fn kind_fits(insn: BpfInsn, k: ErrorKindView) -> bool {
    let op = insn.opcode;
    let mem = op is Ldx || op is Stx || op is St;
    match k {
        ErrorKindView::UnknownOpcode { raw } => op == Opcode::Unknown(raw),
        ErrorKindView::UninitReturn => op is Exit,
        ErrorKindView::UnknownHelper { id } => op is Call && insn.imm == id && helper_ret(id as int) is None,
        ErrorKindView::InvalidHelperArg { .. } => op is Call,
        ErrorKindView::DivByZero { .. } => alu_op(insn) == Some(AluOp::Div) || alu_op(insn) == Some(AluOp::Mod),
        ErrorKindView::ShiftOverflow { .. } =>
            alu_op(insn) == Some(AluOp::Lsh) || alu_op(insn) == Some(AluOp::Rsh) || alu_op(insn) == Some(AluOp::Arsh),
        ErrorKindView::InvalidPointerArith { .. } => alu_op(insn) is Some,
        ErrorKindView::UninitStackRead { .. } => op is Ldx,
        ErrorKindView::OutOfBoundsAccess { .. } | ErrorKindView::NullPointerDeref { .. }
            | ErrorKindView::InvalidPointerDeref { .. } => mem,
        ErrorKindView::PtrLeak { .. } => op is Exit || op is Stx,
        ErrorKindView::UninitRegRead { .. } => !(op is Exit || op is LdImm64 || op is JmpJa || op is Unknown),
        ErrorKindView::FallThrough => op is JmpJa || op is Jmp64 || op is Jmp32,
        ErrorKindView::ComplexityExceeded { .. } => true,
        ErrorKindView::InvalidReturnType { .. } | ErrorKindView::UnboundedLoop { .. } => false,
    }
}

/// An error reported for a programme: at one of its instructions, of a
/// kind that instruction raises; or the fall-through error at the first
/// instruction, for a programme whose paths never reach EXIT.
pub open spec fn error_fits(insns: Seq<BpfInsn>, e: ErrorView) -> bool {
    &&& e.pc < insns.len()
    &&& (kind_fits(insns[e.pc as int], e.kind) || (e.kind is FallThrough && e.pc == 0))
}

/// A stack by what it holds: which of its 512 bytes are written, and its
/// spilled registers by offset.
pub open spec fn stack_view(s: StackState) -> (Seq<bool>, Map<i64, RegState>) {
    (Seq::new(512, |i: int| s.written(i)), s.spill_map())
}

/// Two register files widened register by register.
pub open spec fn widened_regs(a: Seq<RegState>, b: Seq<RegState>) -> Seq<RegState> {
    Seq::new(11, |i: int| a[i].widened(b[i]))
}

/// Two stacks widened: the bytes both wrote, and the spills both hold
/// equally.
pub open spec fn widened_stack(a: (Seq<bool>, Map<i64, RegState>), b: (Seq<bool>, Map<i64, RegState>)) -> (
    Seq<bool>,
    Map<i64, RegState>,
) {
    (
        Seq::new(512, |i: int| a.0[i] && b.0[i]),
        Map::new(|o: i64| a.1.contains_key(o) && b.1.contains_key(o) && same_reg(a.1[o], b.1[o]), |o: i64| a.1[o]),
    )
}

/// An explored state by its registers and stack.
pub open spec fn entry_view(e: (VerifierState, StackState)) -> (Seq<RegState>, (Seq<bool>, Map<i64, RegState>)) {
    (e.0.regs@, stack_view(e.1))
}

/// Pruning or recording at an instruction (see `visit`): from the states
/// explored there, the current state and stack to those after, and
/// whether an explored state subsumes the current one.
pub open spec fn visit_rel(
    row: Seq<(VerifierState, StackState)>,
    at_loop_head: bool,
    st: VerifierState,
    sk: StackState,
    row2: Seq<(VerifierState, StackState)>,
    st2: VerifierState,
    sk2: StackState,
    dominated: bool,
) -> bool {
    &&& dominated == exists|k: int| 0 <= k < row.len() && st.substate(#[trigger] row[k].0) && sk.covers(row[k].1)
    &&& dominated ==> row2 == row && st2 == st && sk2 == sk
    &&& !dominated && at_loop_head && row.len() > 0 ==> {
        let w = (widened_regs(row[0].0.regs@, st.regs@), widened_stack(stack_view(row[0].1), stack_view(sk)));
        &&& row2.len() == row.len()
        &&& entry_view(row2[0]) == w
        &&& forall|j: int| 1 <= j < row.len() ==> #[trigger] row2[j] == row[j]
        &&& st2.regs@ == w.0
        &&& stack_view(sk2) == w.1
    }
    &&& !dominated && !(at_loop_head && row.len() > 0) ==> {
        &&& st2.regs@ == st.regs@
        &&& stack_view(sk2) == stack_view(sk)
        &&& if row.len() < MAX_STATES_PER_PC {
            &&& row2.len() == row.len() + 1
            &&& forall|j: int| 0 <= j < row.len() ==> #[trigger] row2[j] == row[j]
            &&& entry_view(row2[row.len() as int]) == (st.regs@, stack_view(sk))
        } else {
            row2 == row
        }
    }
}

/// Prune or record the state at an instruction, given the states explored
/// there. Returns true when an explored state subsumes the current one.
/// Otherwise, at a loop head with an explored state, that state is widened
/// with the current one and the current state becomes the widened state
/// (so the loop converges); elsewhere the state is recorded while fewer
/// than `MAX_STATES_PER_PC` are.
fn visit(
    row: &mut Vec<(VerifierState, StackState)>,
    at_loop_head: bool,
    state: &mut VerifierState,
    stack: &mut StackState,
) -> (dominated: bool)
    requires
        old(stack).wf(),
        forall|j: int| 0 <= j < old(row)@.len() ==> (#[trigger] old(row)@[j]).1.wf(),
    ensures
        final(stack).wf(),
        forall|j: int| 0 <= j < final(row)@.len() ==> (#[trigger] final(row)@[j]).1.wf(),
        visit_rel(old(row)@, at_loop_head, *old(state), *old(stack), final(row)@, *final(state), *final(stack), dominated),
{
    if subsumed(row, state, stack) {
        return true;
    }
    if at_loop_head && row.len() > 0 {
        let w_regs = row[0].0.widen(state);
        let w_stack = row[0].1.widen(stack);
        let ghost want = (
            widened_regs(old(row)@[0].0.regs@, old(state).regs@),
            widened_stack(stack_view(old(row)@[0].1), stack_view(*old(stack))),
        );
        assert(w_regs.regs@ =~= want.0);
        assert(stack_view(w_stack).0 =~= want.1.0);
        assert(stack_view(w_stack).1 =~= want.1.1);
        *state = w_regs.dup();
        *stack = w_stack.dup();
        assert(stack_view(*stack).0 =~= want.1.0);
        row[0] = (w_regs, w_stack);
    } else if row.len() < MAX_STATES_PER_PC {
        let e = (state.dup(), stack.dup());
        assert(stack_view(e.1).0 =~= stack_view(*stack).0);
        row.push(e);
    }
    false
}

proof fn lemma_alu_fits(state: VerifierState, insn: BpfInsn, op: AluOp, src: Source, is_64: bool)
    requires
        alu_op(insn) == Some(op),
    ensures
        alu_outcome(state, insn, op, src, is_64) matches Err(k) ==> kind_fits(insn, k) && !(k is ComplexityExceeded),
{
}

proof fn lemma_load_fits(state: VerifierState, stack: StackState, insn: BpfInsn, w: MemWidth, sl: Seq<Option<SourceLoc>>)
    requires
        insn.opcode is Ldx,
    ensures
        load_outcome(state, stack, insn, w, sl) matches Err(k) ==> kind_fits(insn, k) && !(k is ComplexityExceeded),
{
}

proof fn lemma_store_fits(state: VerifierState, insn: BpfInsn, w: MemWidth, is_st: bool, sl: Seq<Option<SourceLoc>>)
    requires
        insn.opcode is Stx || insn.opcode is St,
        !is_st ==> insn.opcode is Stx,
    ensures
        store_error(state, insn, w, is_st, sl) matches Some(k) ==> kind_fits(insn, k) && !(k is ComplexityExceeded),
{
}

proof fn lemma_call_fits(state: VerifierState, id: i32, i: int, pc: usize, loc: Option<&SourceLoc>)
    ensures
        first_arg_error(state, id, i, pc, loc) matches Some(e) ==> e.pc == pc
            && (e.kind is UninitRegRead || e.kind is InvalidHelperArg),
    decreases 5 - i,
{
    if i < 5 {
        lemma_call_fits(state, id, i + 1, pc, loc);
    }
}

/// The relocation of the instruction at `pc`, if it has one.
pub open spec fn reloc_at(relocs: Map<usize, RelocTarget>, pc: usize) -> Option<RelocTarget> {
    if relocs.contains_key(pc) { Some(relocs[pc]) } else { None }
}

/// The register an LD_IMM64 loads: as its relocation says (a map's fd is
/// an unknown scalar, a global a pointer to that data, a CO-RE offset a
/// kernel pointer), else its 64-bit immediate.
pub open spec fn ld_imm64_reg(reloc: Option<RelocTarget>, insn: BpfInsn, v: RegState) -> bool {
    match reloc {
        Some(RelocTarget::MapFd { .. }) => v == unbounded(RegType::Scalar),
        Some(RelocTarget::Data { name }) => v.reg_type matches RegType::DataPtr { name: n } && n@ == name@
            && v == unbounded(v.reg_type),
        Some(RelocTarget::CoreFieldOffset) => v == unbounded(RegType::KernelPtr),
        None => v == known_scalar(insn.imm64_value()),
    }
}

/// The first read error of the registers an instruction reads: `dst`
/// where `reads_dst`, then `src` where `reads_src`.
pub open spec fn operand_error(
    state: VerifierState,
    insn: BpfInsn,
    reads_dst: bool,
    reads_src: bool,
    pc: usize,
    loc: Option<&SourceLoc>,
) -> Option<ErrorView> {
    if reads_dst && read_error(state, insn.dst, pc, loc) is Some {
        read_error(state, insn.dst, pc, loc)
    } else if reads_src && read_error(state, insn.src, pc, loc) is Some {
        read_error(state, insn.src, pc, loc)
    } else {
        None
    }
}

/// The path ends at this instruction with error `e`, the state unchanged.
pub open spec fn ends_with(
    e: Option<ErrorView>,
    st: VerifierState,
    sk: StackState,
    id: usize,
    st2: VerifierState,
    sk2: StackState,
    id2: usize,
    err: Option<ErrorView>,
    next: usize,
) -> bool {
    e is Some && err == e && next == usize::MAX && st2 == st && sk2 == sk && id2 == id
}

/// A helper call (see `call_post`): an unknown helper or a bad argument
/// ends the path.
pub open spec fn call_step(
    insn: BpfInsn,
    pc: usize,
    loc: Option<&SourceLoc>,
    st: VerifierState,
    sk: StackState,
    id: usize,
    st2: VerifierState,
    sk2: StackState,
    id2: usize,
    err: Option<ErrorView>,
    next: usize,
) -> bool {
    if helper_ret(insn.imm as int) is None {
        ends_with(Some(error_at(pc, loc, ErrorKindView::UnknownHelper { id: insn.imm })), st, sk, id, st2, sk2, id2, err, next)
    } else if first_arg_error(st, insn.imm, 0, pc, loc) is Some {
        ends_with(first_arg_error(st, insn.imm, 0, pc, loc), st, sk, id, st2, sk2, id2, err, next)
    } else {
        err is None && next == pc + 1 && call_post(st, sk, id, insn, pc, st2, sk2, id2)
    }
}

/// A conditional jump: the registers it compares must be readable and its
/// target inside the programme; the path goes on with the fall-through
/// side and the taken side (see `refine_post`) is pushed on the backtrack
/// stack.
pub open spec fn jump_step(
    insns: Seq<BpfInsn>,
    pc: usize,
    loc: Option<&SourceLoc>,
    op: JmpOp,
    src: Source,
    st: VerifierState,
    sk: StackState,
    id: usize,
    bt: Seq<WorkItem>,
    st2: VerifierState,
    sk2: StackState,
    id2: usize,
    bt2: Seq<WorkItem>,
    err: Option<ErrorView>,
    next: usize,
) -> bool {
    let insn = insns[pc as int];
    let is_32 = insn.opcode is Jmp32;
    if operand_error(st, insn, true, src == Source::Reg, pc, loc) is Some {
        ends_with(operand_error(st, insn, true, src == Source::Reg, pc, loc), st, sk, id, st2, sk2, id2, err, next)
            && bt2 == bt
    } else {
        match branch_target(insns, pc as int, insn.offset) {
            None => ends_with(Some(error_at(pc, loc, ErrorKindView::FallThrough)), st, sk, id, st2, sk2, id2, err, next)
                && bt2 == bt,
            Some(t) => {
                &&& err is None && next == pc + 1 && id2 == id
                &&& bt2.len() == bt.len() + 1 && bt2.take(bt.len() as int) == bt
                &&& bt2.last().pc == t
                &&& exists|t0: VerifierState, k0: StackState|
                    t0.regs@ == st.regs@ && stack_view(k0) == stack_view(sk) && #[trigger] refine_post(
                        t0, k0, st, sk, insn, op, src, is_32, bt2.last().state, bt2.last().stack, st2, sk2)
            },
        }
    }
}

/// An ALU instruction (see `alu_outcome`): its operands must be readable.
pub open spec fn alu_step(
    insn: BpfInsn,
    pc: usize,
    loc: Option<&SourceLoc>,
    op: AluOp,
    src: Source,
    st: VerifierState,
    sk: StackState,
    id: usize,
    st2: VerifierState,
    sk2: StackState,
    id2: usize,
    err: Option<ErrorView>,
    next: usize,
) -> bool {
    let is_64 = insn.opcode is Alu64;
    if operand_error(st, insn, op != AluOp::Mov, src == Source::Reg, pc, loc) is Some {
        ends_with(operand_error(st, insn, op != AluOp::Mov, src == Source::Reg, pc, loc), st, sk, id, st2, sk2, id2,
            err, next)
    } else {
        match alu_outcome(st, insn, op, src, is_64) {
            Ok(v) => err is None && next == pc + 1 && st2.regs@ == st.regs@.update(insn.dst.num() as int, v) && sk2
                == sk && id2 == id,
            Err(k) => ends_with(Some(error_at(pc, loc, k)), st, sk, id, st2, sk2, id2, err, next),
        }
    }
}

/// A load (see `load_outcome`): its address register must be readable.
pub open spec fn load_step(
    insn: BpfInsn,
    pc: usize,
    loc: Option<&SourceLoc>,
    w: MemWidth,
    locs: Seq<Option<SourceLoc>>,
    st: VerifierState,
    sk: StackState,
    id: usize,
    st2: VerifierState,
    sk2: StackState,
    id2: usize,
    err: Option<ErrorView>,
    next: usize,
) -> bool {
    if operand_error(st, insn, false, true, pc, loc) is Some {
        ends_with(operand_error(st, insn, false, true, pc, loc), st, sk, id, st2, sk2, id2, err, next)
    } else {
        match load_outcome(st, sk, insn, w, locs) {
            Ok(v) => err is None && next == pc + 1 && st2.regs@ == st.regs@.update(insn.dst.num() as int, v) && sk2
                == sk && id2 == id,
            Err(k) => ends_with(Some(error_at(pc, loc, k)), st, sk, id, st2, sk2, id2, err, next),
        }
    }
}

/// A store (see `store_error` and `store_post`): its registers must be
/// readable.
pub open spec fn store_step(
    insn: BpfInsn,
    pc: usize,
    loc: Option<&SourceLoc>,
    w: MemWidth,
    is_st: bool,
    locs: Seq<Option<SourceLoc>>,
    st: VerifierState,
    sk: StackState,
    id: usize,
    st2: VerifierState,
    sk2: StackState,
    id2: usize,
    err: Option<ErrorView>,
    next: usize,
) -> bool {
    if operand_error(st, insn, true, !is_st, pc, loc) is Some {
        ends_with(operand_error(st, insn, true, !is_st, pc, loc), st, sk, id, st2, sk2, id2, err, next)
    } else {
        match store_error(st, insn, w, is_st, locs) {
            Some(k) => ends_with(Some(error_at(pc, loc, k)), st, sk, id, st2, sk2, id2, err, next),
            None => err is None && next == pc + 1 && st2 == st && id2 == id && store_post(st, sk, insn, w, is_st, sk2),
        }
    }
}

/// One instruction of a path: from the state, stack, next allocation id
/// and backtrack stack before it to those after it, the error it raises
/// and the next instruction (`usize::MAX` where the path ends).
pub open spec fn step_rel(
    insns: Seq<BpfInsn>,
    pc: usize,
    loc: Option<&SourceLoc>,
    locs: Seq<Option<SourceLoc>>,
    relocs: Map<usize, RelocTarget>,
    st: VerifierState,
    sk: StackState,
    id: usize,
    bt: Seq<WorkItem>,
    st2: VerifierState,
    sk2: StackState,
    id2: usize,
    bt2: Seq<WorkItem>,
    err: Option<ErrorView>,
    next: usize,
) -> bool {
    let insn = insns[pc as int];
    match insn.opcode {
        Opcode::Unknown(raw) => bt2 == bt && ends_with(Some(error_at(pc, loc, ErrorKindView::UnknownOpcode { raw })), st,
            sk, id, st2, sk2, id2, err, next),
        Opcode::Exit => st2 == st && sk2 == sk && id2 == id && bt2 == bt && next == usize::MAX && err == exit_error(
            st,
            pc,
            loc,
        ),
        Opcode::Call => bt2 == bt && call_step(insn, pc, loc, st, sk, id, st2, sk2, id2, err, next),
        Opcode::JmpJa => st2 == st && sk2 == sk && id2 == id && bt2 == bt && match branch_target(
            insns,
            pc as int,
            insn.offset,
        ) {
            Some(t) => err is None && next == t,
            None => err == Some(error_at(pc, loc, ErrorKindView::FallThrough)) && next == usize::MAX,
        },
        Opcode::Jmp64(op, src) | Opcode::Jmp32(op, src) => jump_step(insns, pc, loc, op, src, st, sk, id, bt, st2, sk2,
            id2, bt2, err, next),
        Opcode::Alu64(op, src) | Opcode::Alu32(op, src) => bt2 == bt && alu_step(insn, pc, loc, op, src, st, sk, id, st2,
            sk2, id2, err, next),
        Opcode::LdImm64 => {
            &&& err is None && next == pc + 1 && sk2 == sk && id2 == id && bt2 == bt
            &&& exists|v: RegState| st2.regs@ == st.regs@.update(insn.dst.num() as int, v) && #[trigger] ld_imm64_reg(
                reloc_at(relocs, pc), insn, v)
        },
        Opcode::Ldx(w) => bt2 == bt && load_step(insn, pc, loc, w, locs, st, sk, id, st2, sk2, id2, err, next),
        Opcode::Stx(w) => bt2 == bt && store_step(insn, pc, loc, w, false, locs, st, sk, id, st2, sk2, id2, err, next),
        Opcode::St(w) => bt2 == bt && store_step(insn, pc, loc, w, true, locs, st, sk, id, st2, sk2, id2, err, next),
    }
}

/// Check and apply a helper call (see `call_step`).
fn step_call(
    insn: &BpfInsn,
    pc: usize,
    loc: Option<&SourceLoc>,
    state: &mut VerifierState,
    stack: &mut StackState,
    id_gen: &mut IdGen,
) -> (r: (Option<VerifyError>, usize))
    requires
        insn.opcode is Call,
        pc < usize::MAX,
        old(stack).wf(),
        old(id_gen).peek() < usize::MAX,
    ensures
        final(stack).wf(),
        final(id_gen).peek() <= old(id_gen).peek() + 1,
        match r.0 {
            Some(e) => e.pc == pc && kind_fits(*insn, e@.kind) && !(e@.kind is ComplexityExceeded),
            None => true,
        },
        call_step(*insn, pc, loc, *old(state), *old(stack), old(id_gen).peek(), *final(state), *final(stack),
            final(id_gen).peek(), opt_error(r.0), r.1),
{
    proof { lemma_call_fits(*state, insn.imm, 0, pc, loc); }
    match check_call(state, stack, insn, pc, loc, id_gen) {
        Some(err) => (Some(err), usize::MAX),
        None => (None, pc + 1),
    }
}

/// Check a conditional jump and split the path (see `jump_step`).
fn step_jump(
    insn: &BpfInsn,
    pc: usize,
    loc: Option<&SourceLoc>,
    op: JmpOp,
    src: Source,
    state: &mut VerifierState,
    stack: &mut StackState,
    backtrack: &mut Vec<WorkItem>,
    collapsed_to_raw: &Vec<usize>,
    raw_to_collapsed: &HashMap<usize, usize>,
    Ghost(insns): Ghost<Seq<BpfInsn>>,
) -> (r: (Option<VerifyError>, usize))
    requires
        pc < insns.len(),
        *insn == insns[pc as int],
        insn.opcode == Opcode::Jmp64(op, src) || insn.opcode == Opcode::Jmp32(op, src),
        insns.len() <= usize::MAX / 2,
        collapsed_to_raw@.len() == insns.len(),
        forall|i: int| 0 <= i < insns.len() ==> #[trigger] collapsed_to_raw@[i] == raw_pc(insns, i),
        forall|k: usize| #[trigger] raw_to_collapsed@.contains_key(k) <==> collapsed_at(insns, k as int) is Some,
        forall|k: usize| #[trigger] raw_to_collapsed@.contains_key(k) ==> Some(raw_to_collapsed@[k]) == collapsed_at(insns, k as int),
        old(stack).wf(),
        forall|k: int| 0 <= k < old(backtrack)@.len() ==> (#[trigger] old(backtrack)@[k]).stack.wf() && old(backtrack)@[k].pc < insns.len(),
    ensures
        final(stack).wf(),
        final(backtrack)@.len() <= old(backtrack)@.len() + 1,
        forall|k: int| 0 <= k < final(backtrack)@.len() ==> (#[trigger] final(backtrack)@[k]).stack.wf()
            && final(backtrack)@[k].pc < insns.len(),
        match r.0 {
            Some(e) => e.pc == pc && kind_fits(*insn, e@.kind) && !(e@.kind is ComplexityExceeded),
            None => true,
        },
        forall|id: usize| jump_step(insns, pc, loc, op, src, *old(state), *old(stack), id, old(backtrack)@, *final(state),
            *final(stack), id, final(backtrack)@, opt_error(r.0), r.1),
{
    let is_32 = matches!(insn.opcode, Opcode::Jmp32(..));
    let target = resolve_branch_target(pc, insn.offset, collapsed_to_raw, raw_to_collapsed, Ghost(insns));
    if let Some(err) = check_reg_readable(state, insn.dst, pc, loc) {
        return (Some(err), usize::MAX);
    }
    if src == Source::Reg {
        if let Some(err) = check_reg_readable(state, insn.src, pc, loc) {
            return (Some(err), usize::MAX);
        }
    }
    match target {
        None => (Some(VerifyError::new(pc, ErrorKind::FallThrough).with_source(loc)), usize::MAX),
        Some(t) => {
            // Refine both sides; the taken side is deferred and the
            // fall-through side continues.
            let mut taken_state = state.dup();
            let mut taken_stack = stack.dup();
            let ghost t0 = taken_state;
            let ghost k0 = taken_stack;
            let ghost st0 = *state;
            let ghost sk0 = *stack;
            assert(stack_view(k0) =~= stack_view(sk0));
            refine_branch(&mut taken_state, &mut taken_stack, state, stack, insn, op, src, is_32);
            let ghost bt0 = backtrack@;
            backtrack.push(WorkItem { pc: t, state: taken_state, stack: taken_stack });
            assert(backtrack@.take(bt0.len() as int) =~= bt0);
            assert(refine_post(t0, k0, st0, sk0, *insn, op, src, is_32, backtrack@.last().state, backtrack@.last().stack,
                *state, *stack));
            (None, pc + 1)
        },
    }
}

/// Check and apply an ALU instruction (see `alu_step`).
fn step_alu(
    insn: &BpfInsn,
    pc: usize,
    loc: Option<&SourceLoc>,
    op: AluOp,
    src: Source,
    state: &mut VerifierState,
) -> (r: (Option<VerifyError>, usize))
    requires
        insn.opcode == Opcode::Alu64(op, src) || insn.opcode == Opcode::Alu32(op, src),
        pc < usize::MAX,
    ensures
        match r.0 {
            Some(e) => e.pc == pc && kind_fits(*insn, e@.kind) && !(e@.kind is ComplexityExceeded),
            None => true,
        },
        forall|sk: StackState, id: usize| alu_step(*insn, pc, loc, op, src, *old(state), sk, id, *final(state), sk, id,
            opt_error(r.0), r.1),
{
    let is_64 = matches!(insn.opcode, Opcode::Alu64(..));
    if op != AluOp::Mov {
        if let Some(err) = check_reg_readable(state, insn.dst, pc, loc) {
            return (Some(err), usize::MAX);
        }
    }
    if src == Source::Reg {
        if let Some(err) = check_reg_readable(state, insn.src, pc, loc) {
            return (Some(err), usize::MAX);
        }
    }
    proof { lemma_alu_fits(*state, *insn, op, src, is_64); }
    match check_alu(state, insn, op, src, is_64, pc, loc) {
        Some(err) => (Some(err), usize::MAX),
        None => (None, pc + 1),
    }
}

/// Check and apply a load (see `load_step`).
fn step_load(
    insn: &BpfInsn,
    pc: usize,
    loc: Option<&SourceLoc>,
    w: MemWidth,
    state: &mut VerifierState,
    stack: &StackState,
    source_locs: &[Option<SourceLoc>],
) -> (r: (Option<VerifyError>, usize))
    requires
        insn.opcode == Opcode::Ldx(w),
        pc < usize::MAX,
        stack.wf(),
    ensures
        match r.0 {
            Some(e) => e.pc == pc && kind_fits(*insn, e@.kind) && !(e@.kind is ComplexityExceeded),
            None => true,
        },
        forall|id: usize| load_step(*insn, pc, loc, w, source_locs@, *old(state), *stack, id, *final(state), *stack, id,
            opt_error(r.0), r.1),
{
    if let Some(err) = check_reg_readable(state, insn.src, pc, loc) {
        return (Some(err), usize::MAX);
    }
    proof { lemma_load_fits(*state, *stack, *insn, w, source_locs@); }
    match check_load(state, stack, insn, w, pc, loc, source_locs) {
        Some(err) => (Some(err), usize::MAX),
        None => (None, pc + 1),
    }
}

/// Check and apply a store (see `store_step`).
fn step_store(
    insn: &BpfInsn,
    pc: usize,
    loc: Option<&SourceLoc>,
    w: MemWidth,
    is_st: bool,
    state: &VerifierState,
    stack: &mut StackState,
    source_locs: &[Option<SourceLoc>],
) -> (r: (Option<VerifyError>, usize))
    requires
        insn.opcode == (if is_st { Opcode::St(w) } else { Opcode::Stx(w) }),
        pc < usize::MAX,
        old(stack).wf(),
    ensures
        final(stack).wf(),
        match r.0 {
            Some(e) => e.pc == pc && kind_fits(*insn, e@.kind) && !(e@.kind is ComplexityExceeded),
            None => true,
        },
        forall|id: usize| store_step(*insn, pc, loc, w, is_st, source_locs@, *state, *old(stack), id, *state,
            *final(stack), id, opt_error(r.0), r.1),
{
    if let Some(err) = check_reg_readable(state, insn.dst, pc, loc) {
        return (Some(err), usize::MAX);
    }
    if !is_st {
        if let Some(err) = check_reg_readable(state, insn.src, pc, loc) {
            return (Some(err), usize::MAX);
        }
    }
    proof { lemma_store_fits(*state, *insn, w, is_st, source_locs@); }
    match check_store(state, stack, insn, w, is_st, pc, loc, source_locs) {
        Some(err) => (Some(err), usize::MAX),
        None => (None, pc + 1),
    }
}

/// Process the instruction at `pc`: check it and apply it to the state.
/// Returns the error it raises, if any, and the next instruction (past the
/// end when the path ends). The taken side of a conditional jump is pushed
/// on the backtrack stack.
fn step(
    insn: &BpfInsn,
    pc: usize,
    loc: Option<&SourceLoc>,
    state: &mut VerifierState,
    stack: &mut StackState,
    id_gen: &mut IdGen,
    backtrack: &mut Vec<WorkItem>,
    collapsed_to_raw: &Vec<usize>,
    raw_to_collapsed: &HashMap<usize, usize>,
    relocations: &HashMap<usize, RelocTarget>,
    source_locs: &[Option<SourceLoc>],
    Ghost(insns): Ghost<Seq<BpfInsn>>,
) -> (r: (Option<VerifyError>, usize))
    requires
        pc < insns.len(),
        *insn == insns[pc as int],
        insns.len() <= usize::MAX / 2,
        collapsed_to_raw@.len() == insns.len(),
        forall|i: int| 0 <= i < insns.len() ==> #[trigger] collapsed_to_raw@[i] == raw_pc(insns, i),
        forall|k: usize| #[trigger] raw_to_collapsed@.contains_key(k) <==> collapsed_at(insns, k as int) is Some,
        forall|k: usize| #[trigger] raw_to_collapsed@.contains_key(k) ==> Some(raw_to_collapsed@[k]) == collapsed_at(insns, k as int),
        old(stack).wf(),
        old(id_gen).peek() < usize::MAX,
        forall|k: int| 0 <= k < old(backtrack)@.len() ==> (#[trigger] old(backtrack)@[k]).stack.wf() && old(backtrack)@[k].pc < insns.len(),
    ensures
        final(stack).wf(),
        final(id_gen).peek() <= old(id_gen).peek() + 1,
        final(backtrack)@.len() <= old(backtrack)@.len() + 1,
        forall|k: int| 0 <= k < final(backtrack)@.len() ==> (#[trigger] final(backtrack)@[k]).stack.wf()
            && final(backtrack)@[k].pc < insns.len(),
        match r.0 {
            Some(e) => e.pc == pc && kind_fits(*insn, e@.kind) && !(e@.kind is ComplexityExceeded),
            None => true,
        },
        step_rel(insns, pc, loc, source_locs@, relocations@, *old(state), *old(stack), old(id_gen).peek(), old(backtrack)@,
            *final(state), *final(stack), final(id_gen).peek(), final(backtrack)@, opt_error(r.0), r.1),
{
    let ghost id0 = id_gen.peek();
    match insn.opcode {
        Opcode::Unknown(raw) => {
            (Some(VerifyError::new(pc, ErrorKind::UnknownOpcode { raw }).with_source(loc)), usize::MAX)
        },
        Opcode::Exit => {
            (check_exit(state, pc, loc), usize::MAX)
        },
        Opcode::Call => step_call(insn, pc, loc, state, stack, id_gen),
        Opcode::JmpJa => {
            match resolve_branch_target(pc, insn.offset, collapsed_to_raw, raw_to_collapsed, Ghost(insns)) {
                Some(t) => (None, t),
                None => (Some(VerifyError::new(pc, ErrorKind::FallThrough).with_source(loc)), usize::MAX),
            }
        },
        Opcode::Jmp64(op, src) | Opcode::Jmp32(op, src) => {
            let r = step_jump(insn, pc, loc, op, src, state, stack, backtrack, collapsed_to_raw, raw_to_collapsed,
                Ghost(insns));
            assert(jump_step(insns, pc, loc, op, src, *old(state), *old(stack), id0, old(backtrack)@, *state, *stack, id0,
                backtrack@, opt_error(r.0), r.1));
            r
        },
        Opcode::Alu64(op, src) | Opcode::Alu32(op, src) => {
            let ghost sk0 = *stack;
            let r = step_alu(insn, pc, loc, op, src, state);
            assert(alu_step(*insn, pc, loc, op, src, *old(state), sk0, id0, *state, sk0, id0, opt_error(r.0), r.1));
            r
        },
        Opcode::LdImm64 => {
            let v = match relocations.get(&pc) {
                Some(RelocTarget::MapFd { .. }) => RegState::scalar_unknown(),
                Some(RelocTarget::Data { name }) => RegState::with_type(RegType::DataPtr { name: name.clone() }),
                Some(RelocTarget::CoreFieldOffset) => RegState::kernel_ptr(),
                None => RegState::scalar_value(insn.ld_imm64_value()),
            };
            assert(ld_imm64_reg(reloc_at(relocations@, pc), *insn, v));
            state.set(insn.dst, v);
            (None, pc + 1)
        },
        Opcode::Ldx(w) => {
            let r = step_load(insn, pc, loc, w, state, stack, source_locs);
            assert(load_step(*insn, pc, loc, w, source_locs@, *old(state), *stack, id0, *state, *stack, id0, opt_error(r.0),
                r.1));
            r
        },
        Opcode::Stx(w) => {
            let r = step_store(insn, pc, loc, w, false, state, stack, source_locs);
            assert(store_step(*insn, pc, loc, w, false, source_locs@, *state, *old(stack), id0, *state, *stack, id0,
                opt_error(r.0), r.1));
            r
        },
        Opcode::St(w) => {
            let r = step_store(insn, pc, loc, w, true, state, stack, source_locs);
            assert(store_step(*insn, pc, loc, w, true, source_locs@, *state, *old(stack), id0, *state, *stack, id0,
                opt_error(r.0), r.1));
            r
        },
    }
}

/// Run the kernel-style verifier on a BPF programme.
pub fn check(instructions: &[BpfInsn], source_locs: &[Option<SourceLoc>]) -> (r: CheckResult)
    requires
        instructions@.len() <= usize::MAX / 2,
    ensures
        checked(instructions@, r),
        r.instructions_visited <= COMPLEXITY_LIMIT + 1,
        forall|k1: int, k2: int| 0 <= k1 < k2 < r.errors@.len() ==>
            error_key(#[trigger] r.errors@[k1]) != error_key(#[trigger] r.errors@[k2]),
        instructions@.len() == 0 ==> r.instructions_visited == 0 && r.errors@.len() == 1 && r.errors@[0].pc == 0
            && r.errors@[0].kind is FallThrough,
        instructions@.len() > 0 ==> exists|ws: Seq<Walk>| #[trigger] walk_of(
            instructions@,
            source_locs@,
            Map::<usize, RelocTarget>::empty(),
            ws,
        ) && r.errors@ == keep_first(with_fall_through(ws.last().errors, ws.last().reached_exit))
            && r.instructions_visited == ws.last().visited,
{
    let none: HashMap<usize, RelocTarget> = HashMap::new();
    assert(none@ == Map::<usize, RelocTarget>::empty());
    check_with_relocs(instructions, source_locs, &none)
}

/// What every run of the verifier guarantees of its result.
pub open spec fn checked(insns: Seq<BpfInsn>, r: CheckResult) -> bool {
    &&& insns.len() == 0 ==> r.instructions_visited == 0 && r.errors@.len() == 1
        && r.errors@[0]@ == (ErrorView { pc: 0, kind: ErrorKindView::FallThrough, source_loc: None })
    &&& insns.len() > 0 ==> forall|k: int| 0 <= k < r.errors@.len() ==> error_fits(insns, #[trigger] r.errors@[k]@)
    &&& forall|k1: int, k2: int| 0 <= k1 < k2 < r.errors@.len() ==>
        error_key(#[trigger] r.errors@[k1]) != error_key(#[trigger] r.errors@[k2])
    &&& r.instructions_visited <= COMPLEXITY_LIMIT + 1
    &&& insns.len() > 0 ==> ((exists|k: int| 0 <= k < r.errors@.len() && (#[trigger] r.errors@[k])@.kind is ComplexityExceeded)
        <==> r.instructions_visited == COMPLEXITY_LIMIT + 1)
    &&& (insns.len() > 0 && r.instructions_visited <= COMPLEXITY_LIMIT
        && !exists|i: int| 0 <= i < insns.len() && (#[trigger] insns[i]).opcode is Exit) ==>
        exists|k: int| 0 <= k < r.errors@.len() && (#[trigger] r.errors@[k]).pc == 0 && r.errors@[k].kind is FallThrough
}

proof fn lemma_dedup_fits(insns: Seq<BpfInsn>, s: Seq<VerifyError>)
    requires
        forall|k: int| 0 <= k < s.len() ==> error_fits(insns, #[trigger] s[k]@),
    ensures
        forall|k: int| 0 <= k < keep_first(s).len() ==> error_fits(insns, #[trigger] keep_first(s)[k]@),
{
    lemma_keep_first_subset(s);
    let d = keep_first(s);
    assert forall|k: int| 0 <= k < d.len() implies error_fits(insns, #[trigger] d[k]@) by {
        let j = choose|j: int| 0 <= j < s.len() && d[k] == s[j];
        assert(error_fits(insns, s[j]@));
    }
}

proof fn lemma_code_complexity(k: ErrorKind)
    ensures
        (k.code() == 7) == (k@ is ComplexityExceeded),
{
}

proof fn lemma_dedup_complexity(s: Seq<VerifyError>)
    ensures
        (exists|k: int| 0 <= k < keep_first(s).len() && (#[trigger] keep_first(s)[k])@.kind is ComplexityExceeded)
            <==> (exists|j: int| 0 <= j < s.len() && (#[trigger] s[j])@.kind is ComplexityExceeded),
{
    lemma_keep_first_subset(s);
    lemma_keep_first_cover(s);
    let d = keep_first(s);
    if exists|k: int| 0 <= k < d.len() && (#[trigger] d[k])@.kind is ComplexityExceeded {
        let k = choose|k: int| 0 <= k < d.len() && (#[trigger] d[k])@.kind is ComplexityExceeded;
        let j = choose|j: int| 0 <= j < s.len() && d[k] == s[j];
        assert(s[j]@.kind is ComplexityExceeded);
    }
    if exists|j: int| 0 <= j < s.len() && (#[trigger] s[j])@.kind is ComplexityExceeded {
        let j = choose|j: int| 0 <= j < s.len() && (#[trigger] s[j])@.kind is ComplexityExceeded;
        let k = choose|k: int| 0 <= k < d.len() && error_key(#[trigger] d[k]) == error_key(#[trigger] s[j]);
        lemma_code_complexity(s[j].kind);
        lemma_code_complexity(d[k].kind);
        assert(d[k]@.kind is ComplexityExceeded);
    }
}

proof fn lemma_dedup_fall_through(s: Seq<VerifyError>, j: int)
    requires
        0 <= j < s.len(),
        s[j].pc == 0,
        s[j].kind is FallThrough,
    ensures
        exists|k: int| 0 <= k < keep_first(s).len() && (#[trigger] keep_first(s)[k]).pc == 0
            && keep_first(s)[k].kind is FallThrough,
{
    lemma_keep_first_cover(s);
    let d = keep_first(s);
    let k = choose|k: int| 0 <= k < d.len() && error_key(#[trigger] d[k]) == error_key(#[trigger] s[j]);
    assert(d[k].pc == 0 && d[k].kind is FallThrough);
}

/// The errors of a walk, with the fall-through error at the first
/// instruction added where no path reached EXIT and the walk was not cut
/// short.
pub open spec fn with_fall_through(errors: Seq<VerifyError>, reached_exit: bool) -> Seq<VerifyError> {
    if !reached_exit && !(exists|k: int| 0 <= k < errors.len() && (#[trigger] errors[k])@.kind is ComplexityExceeded) {
        errors.push(VerifyError { pc: 0, kind: ErrorKind::FallThrough, source_loc: None })
    } else {
        errors
    }
}

/// Complete a run: report a fall-through when no path reached EXIT (unless
/// the run was cut short), and keep one error per instruction and kind.
fn finish(errors: Vec<VerifyError>, reached_exit: bool, total_visited: usize, Ghost(insns): Ghost<Seq<BpfInsn>>) -> (r: CheckResult)
    requires
        insns.len() > 0,
        forall|k: int| 0 <= k < errors@.len() ==> error_fits(insns, #[trigger] errors@[k]@),
        total_visited <= COMPLEXITY_LIMIT + 1,
        (exists|k: int| 0 <= k < errors@.len() && (#[trigger] errors@[k])@.kind is ComplexityExceeded)
            <==> total_visited == COMPLEXITY_LIMIT + 1,
        reached_exit ==> exists|i: int| 0 <= i < insns.len() && (#[trigger] insns[i]).opcode is Exit,
    ensures
        checked(insns, r),
        r.errors@ == keep_first(with_fall_through(errors@, reached_exit)),
        r.instructions_visited == total_visited,
{
    let mut errors = errors;
    if !reached_exit && !has_complexity_error(&errors) {
        errors.push(VerifyError::new(0, ErrorKind::FallThrough));
        assert(errors@[errors@.len() - 1].pc == 0 && errors@[errors@.len() - 1].kind is FallThrough);
    }
    let deduped = dedup_errors(&errors);
    proof {
        lemma_keep_first_distinct(errors@);
        lemma_dedup_fits(insns, errors@);
        lemma_dedup_complexity(errors@);
        if !reached_exit && total_visited <= COMPLEXITY_LIMIT {
            lemma_dedup_fall_through(errors@, (errors@.len() - 1) as int);
        }
    }
    CheckResult { errors: deduped, instructions_visited: total_visited }
}

/// A point of the walk over a programme's paths: the instruction, state
/// and stack of the current path, the next allocation id, the deferred
/// branches, the states explored at each instruction, the errors so far,
/// the instructions visited, whether a path reached EXIT, and whether the
/// walk is over.
pub struct Walk {
    pub pc: usize,
    pub state: VerifierState,
    pub stack: StackState,
    pub id: usize,
    pub backtrack: Seq<WorkItem>,
    pub explored: Seq<Seq<(VerifierState, StackState)>>,
    pub errors: Seq<VerifyError>,
    pub visited: usize,
    pub reached_exit: bool,
    pub done: bool,
}

/// The start of the walk: the entry state at the first instruction, an
/// empty stack, nothing deferred or explored.
pub open spec fn walk_start(insns: Seq<BpfInsn>, w: Walk) -> bool {
    &&& w.pc == 0 && w.state.is_entry() && w.stack.wf()
    &&& forall|i: int| 0 <= i < 512 ==> !#[trigger] w.stack.written(i)
    &&& w.stack.spill_map() == Map::<i64, RegState>::empty()
    &&& w.id == 0 && w.backtrack == Seq::<WorkItem>::empty()
    &&& w.explored == Seq::new(insns.len(), |i: int| Seq::<(VerifierState, StackState)>::empty())
    &&& w.errors == Seq::<VerifyError>::empty() && w.visited == 0 && !w.reached_exit && !w.done
}

/// Ending the current path: the walk resumes the most recently deferred
/// branch, or is over where none is left.
pub open spec fn resumes(a: Walk, b: Walk, visited: usize, explored: Seq<Seq<(VerifierState, StackState)>>) -> bool {
    if a.backtrack.len() == 0 {
        b == (Walk { visited, explored, done: true, ..a })
    } else {
        let item = a.backtrack.last();
        b == (Walk {
            pc: item.pc,
            state: item.state,
            stack: item.stack,
            backtrack: a.backtrack.drop_last(),
            visited,
            explored,
            ..a
        })
    }
}

/// The errors after one instruction: with its error, if it raised one.
pub open spec fn errors_after(errors: Seq<VerifyError>, err: Option<ErrorView>, errors2: Seq<VerifyError>) -> bool {
    match err {
        Some(e) => errors2.len() == errors.len() + 1 && errors2.drop_last() == errors && errors2.last()@ == e,
        None => errors2 == errors,
    }
}

/// Checking the instruction of the current path (see `step_rel`), after
/// `visit` left the state and stack `st` and `sk` and the explored states
/// `row2` there.
pub open spec fn walk_checks(
    insns: Seq<BpfInsn>,
    locs: Seq<Option<SourceLoc>>,
    relocs: Map<usize, RelocTarget>,
    a: Walk,
    b: Walk,
    row2: Seq<(VerifierState, StackState)>,
    st: VerifierState,
    sk: StackState,
) -> bool {
    &&& b.explored == a.explored.update(a.pc as int, row2)
    &&& b.visited == a.visited + 1
    &&& b.reached_exit == (a.reached_exit || insns[a.pc as int].opcode is Exit)
    &&& !b.done
    &&& exists|loc: Option<&SourceLoc>, err: Option<ErrorView>| opt_loc(loc) == loc_at(locs, Some(a.pc)) && #[trigger] step_rel(
        insns, a.pc, loc, locs, relocs, st, sk, a.id, a.backtrack, b.state, b.stack, b.id, b.backtrack, err, b.pc)
        && errors_after(a.errors, err, b.errors)
}

/// One round of the walk: a path past its end resumes a deferred branch;
/// otherwise the instruction counts as visited (past the complexity limit
/// the walk stops with that error), the state is pruned or recorded (see
/// `visit_rel`), and where it is not pruned the instruction is checked.
pub open spec fn walk_step(insns: Seq<BpfInsn>, locs: Seq<Option<SourceLoc>>, relocs: Map<usize, RelocTarget>, a: Walk, b: Walk) -> bool {
    &&& !a.done
    &&& if a.pc >= insns.len() {
        resumes(a, b, a.visited, a.explored)
    } else if a.visited + 1 > COMPLEXITY_LIMIT {
        b == (Walk {
            visited: (a.visited + 1) as usize,
            errors: a.errors.push(VerifyError {
                pc: a.pc,
                kind: ErrorKind::ComplexityExceeded { limit: COMPLEXITY_LIMIT, visited: (a.visited + 1) as usize },
                source_loc: None,
            }),
            done: true,
            ..a
        })
    } else {
        exists|row2: Seq<(VerifierState, StackState)>, st: VerifierState, sk: StackState, dominated: bool|
            #[trigger] visit_rel(a.explored[a.pc as int], is_back_edge_target(insns, a.pc), a.state, a.stack, row2, st, sk,
                dominated) && if dominated {
                resumes(a, b, (a.visited + 1) as usize, a.explored)
            } else {
                walk_checks(insns, locs, relocs, a, b, row2, st, sk)
            }
    }
}

/// Round `k` of a walk leads to round `k + 1`.
pub open spec fn walk_link(insns: Seq<BpfInsn>, locs: Seq<Option<SourceLoc>>, relocs: Map<usize, RelocTarget>, ws: Seq<Walk>, k: int) -> bool {
    walk_step(insns, locs, relocs, ws[k], ws[k + 1])
}

/// A walk of the programme from its start, round by round, until it is
/// over.
pub open spec fn walk_of(insns: Seq<BpfInsn>, locs: Seq<Option<SourceLoc>>, relocs: Map<usize, RelocTarget>, ws: Seq<Walk>) -> bool {
    &&& ws.len() >= 1
    &&& walk_start(insns, ws[0])
    &&& forall|k: int| 0 <= k < ws.len() - 1 ==> #[trigger] walk_link(insns, locs, relocs, ws, k)
    &&& ws.last().done
}

/// Run the verifier with relocation information for LD_IMM64
/// instructions, keyed by instruction index.
///
/// Walks the instructions path by path, taking the fall-through side of a
/// branch first and deferring the taken side. A path ends at EXIT, at an
/// error, or where an explored state at the same instruction subsumes the
/// current one; at loop heads the explored state is widened so loops
/// converge. Errors are reported once per instruction and kind.
#[verifier::rlimit(40)]
pub fn check_with_relocs(
    instructions: &[BpfInsn],
    source_locs: &[Option<SourceLoc>],
    relocations: &HashMap<usize, RelocTarget>,
) -> (r: CheckResult)
    requires
        instructions@.len() <= usize::MAX / 2,
    ensures
        checked(instructions@, r),
        r.instructions_visited <= COMPLEXITY_LIMIT + 1,
        forall|k1: int, k2: int| 0 <= k1 < k2 < r.errors@.len() ==>
            error_key(#[trigger] r.errors@[k1]) != error_key(#[trigger] r.errors@[k2]),
        instructions@.len() == 0 ==> r.instructions_visited == 0 && r.errors@.len() == 1 && r.errors@[0].pc == 0
            && r.errors@[0].kind is FallThrough,
        instructions@.len() > 0 ==> exists|ws: Seq<Walk>| #[trigger] walk_of(instructions@, source_locs@, relocations@, ws)
            && r.errors@ == keep_first(with_fall_through(ws.last().errors, ws.last().reached_exit))
            && r.instructions_visited == ws.last().visited,
{
    let mut errors: Vec<VerifyError> = Vec::new();
    let mut total_visited: usize = 0;
    let mut id_gen = IdGen::new();
    let n = instructions.len();
    if n == 0 {
        errors.push(VerifyError::new(0, ErrorKind::FallThrough));
        return CheckResult { errors, instructions_visited: 0 };
    }
    let (collapsed_to_raw, raw_to_collapsed) = build_pc_map(instructions);
    let back_edge_targets = find_back_edge_targets(instructions, &collapsed_to_raw, &raw_to_collapsed);
    let mut reached_exit = false;
    let mut backtrack: Vec<WorkItem> = Vec::new();
    let mut explored: Vec<Vec<(VerifierState, StackState)>> = Vec::new();
    let mut i: usize = 0;
    while i < n
        invariant
            i <= n,
            explored@.len() == i,
            forall|j: int| 0 <= j < i ==> (#[trigger] explored@[j])@.len() == 0,
        decreases n - i,
    {
        explored.push(Vec::new());
        i = i + 1;
    }
    let mut pc: usize = 0;
    let mut state = VerifierState::entry();
    let mut stack = StackState::new();
    let ghost insns = instructions@;
    let ghost locs = source_locs@;
    let ghost relocs = relocations@;
    let ghost mut ws: Seq<Walk> = seq![walk_here(pc, state, stack, id_gen.peek(), backtrack@, explored@, errors@,
        total_visited, reached_exit, false)];
    assert forall|j: int| 0 <= j < n implies #[trigger] ws[0].explored[j] == Seq::<(VerifierState, StackState)>::empty() by {
        assert(explored@[j]@.len() == 0);
        assert(explored@[j]@ =~= Seq::<(VerifierState, StackState)>::empty());
    }
    assert(ws[0].explored =~= Seq::new(insns.len(), |i: int| Seq::<(VerifierState, StackState)>::empty()));
    assert(ws[0].backtrack =~= Seq::<WorkItem>::empty());
    assert(ws[0].errors =~= Seq::<VerifyError>::empty());

    loop
        invariant_except_break
            total_visited <= COMPLEXITY_LIMIT,
            forall|k: int| 0 <= k < errors@.len() ==> !((#[trigger] errors@[k])@.kind is ComplexityExceeded),
            ws.last() == walk_here(pc, state, stack, id_gen.peek(), backtrack@, explored@, errors@, total_visited,
                reached_exit, false),
        invariant
            n == insns.len(),
            insns == instructions@,
            locs == source_locs@,
            relocs == relocations@,
            0 < n <= usize::MAX / 2,
            collapsed_to_raw@.len() == n,
            forall|i: int| 0 <= i < n ==> #[trigger] collapsed_to_raw@[i] == raw_pc(insns, i),
            forall|k: usize| #[trigger] raw_to_collapsed@.contains_key(k) <==> collapsed_at(insns, k as int) is Some,
            forall|k: usize| #[trigger] raw_to_collapsed@.contains_key(k) ==> Some(raw_to_collapsed@[k]) == collapsed_at(insns, k as int),
            forall|t: usize| #[trigger] back_edge_targets@.contains(t) <==> is_back_edge_target(insns, t),
            explored@.len() == n,
            forall|i: int, j: int| 0 <= i < n && 0 <= j < explored@[i]@.len() ==> (#[trigger] explored@[i]@[j]).1.wf(),
            forall|k: int| 0 <= k < backtrack@.len() ==> (#[trigger] backtrack@[k]).stack.wf() && backtrack@[k].pc < n,
            stack.wf(),
            id_gen.peek() <= total_visited,
            forall|k: int| 0 <= k < errors@.len() ==> error_fits(insns, #[trigger] errors@[k]@),
            reached_exit ==> exists|i: int| 0 <= i < n && (#[trigger] insns[i]).opcode is Exit,
            ws.len() >= 1,
            walk_start(insns, ws[0]),
            forall|k: int| 0 <= k < ws.len() - 1 ==> #[trigger] walk_link(insns, locs, relocs, ws, k),
        ensures
            forall|k: int| 0 <= k < errors@.len() ==> error_fits(insns, #[trigger] errors@[k]@),
            total_visited <= COMPLEXITY_LIMIT + 1,
            (exists|k: int| 0 <= k < errors@.len() && (#[trigger] errors@[k])@.kind is ComplexityExceeded)
                <==> total_visited == COMPLEXITY_LIMIT + 1,
            reached_exit ==> exists|i: int| 0 <= i < n && (#[trigger] insns[i]).opcode is Exit,
            walk_of(insns, locs, relocs, ws),
            ws.last().errors == errors@ && ws.last().visited == total_visited && ws.last().reached_exit == reached_exit,
        decreases COMPLEXITY_LIMIT - total_visited, backtrack@.len(),
    {
        let ghost before = ws.last();
        // End of path: resume the most recently deferred branch.
        if pc >= n {
            match backtrack.pop() {
                Some(item) => {
                    pc = item.pc;
                    state = item.state;
                    stack = item.stack;
                    proof {
                        let after = walk_here(pc, state, stack, id_gen.peek(), backtrack@, explored@, errors@,
                            total_visited, reached_exit, false);
                        lemma_walk_push(insns, locs, relocs, ws, after);
                        ws = ws.push(after);
                    }
                    continue;
                },
                None => {
                    proof {
                        let after = walk_here(pc, state, stack, id_gen.peek(), backtrack@, explored@, errors@,
                            total_visited, reached_exit, true);
                        lemma_walk_push(insns, locs, relocs, ws, after);
                        ws = ws.push(after);
                    }
                    break;
                },
            }
        }

        total_visited = total_visited + 1;
        if total_visited > COMPLEXITY_LIMIT {
            let kind = ErrorKind::ComplexityExceeded { limit: COMPLEXITY_LIMIT, visited: total_visited };
            errors.push(VerifyError::new(pc, kind));
            assert(errors@[errors@.len() - 1]@.kind is ComplexityExceeded);
            proof {
                let after = walk_here(pc, state, stack, id_gen.peek(), backtrack@, explored@, errors@, total_visited,
                    reached_exit, true);
                assert(after.errors =~= before.errors.push(VerifyError {
                    pc,
                    kind: ErrorKind::ComplexityExceeded { limit: COMPLEXITY_LIMIT, visited: total_visited },
                    source_loc: None,
                }));
                lemma_walk_push(insns, locs, relocs, ws, after);
                ws = ws.push(after);
            }
            break;
        }

        // Pruning: a path whose state an explored state subsumes adds
        // nothing new.
        let at_loop_head = back_edge_targets.contains(&pc);
        let ghost st0 = state;
        let ghost sk0 = stack;
        let ghost row0 = explored@[pc as int]@;
        let mut row: Vec<(VerifierState, StackState)> = Vec::new();
        std::mem::swap(&mut row, &mut explored[pc]);
        assert(row@ == row0);
        let dominated = visit(&mut row, at_loop_head, &mut state, &mut stack);
        let ghost row2 = row@;
        explored[pc] = row;
        proof {
            assert(visit_rel(before.explored[pc as int], is_back_edge_target(insns, pc), before.state, before.stack, row2,
                state, stack, dominated));
        }
        if dominated {
            assert(explored@.map_values(|r: Vec<(VerifierState, StackState)>| r@) =~= before.explored);
            match backtrack.pop() {
                Some(item) => {
                    pc = item.pc;
                    state = item.state;
                    stack = item.stack;
                    proof {
                        let after = walk_here(pc, state, stack, id_gen.peek(), backtrack@, explored@, errors@,
                            total_visited, reached_exit, false);
                        lemma_walk_push(insns, locs, relocs, ws, after);
                        ws = ws.push(after);
                    }
                    continue;
                },
                None => {
                    proof {
                        let after = walk_here(pc, state, stack, id_gen.peek(), backtrack@, explored@, errors@,
                            total_visited, reached_exit, true);
                        lemma_walk_push(insns, locs, relocs, ws, after);
                        ws = ws.push(after);
                    }
                    break;
                },
            }
        }

        let insn = &instructions[pc];
        let loc: Option<&SourceLoc> = if pc < source_locs.len() {
            match &source_locs[pc] {
                Some(l) => Some(l),
                None => None,
            }
        } else {
            None
        };
        assert(opt_loc(loc) == loc_at(locs, Some(pc)));
        if matches!(insn.opcode, Opcode::Exit) {
            reached_exit = true;
        }
        let ghost st1 = state;
        let ghost sk1 = stack;
        let ghost id1 = id_gen.peek();
        let ghost bt1 = backtrack@;
        let ghost errs1 = errors@;
        let ghost pc1 = pc;
        let (err, next) = step(insn, pc, loc, &mut state, &mut stack, &mut id_gen, &mut backtrack,
            &collapsed_to_raw, &raw_to_collapsed, relocations, source_locs, Ghost(insns));
        let ghost ev = opt_error(err);
        if let Some(e) = err {
            errors.push(e);
            assert(errors@.drop_last() =~= errs1);
        }
        pc = next;
        proof {
            let after = walk_here(pc, state, stack, id_gen.peek(), backtrack@, explored@, errors@, total_visited,
                reached_exit, false);
            assert(step_rel(insns, pc1, loc, locs, relocs, st1, sk1, id1, bt1, state, stack, id_gen.peek(), backtrack@, ev,
                pc));
            assert(errors_after(errs1, ev, errors@));
            assert(after.explored =~= before.explored.update(pc1 as int, row2));
            assert(after.visited == before.visited + 1);
            assert(after.reached_exit == (before.reached_exit || insns[before.pc as int].opcode is Exit));
            assert(before.pc == pc1 && before.id == id1 && before.backtrack == bt1 && before.errors == errs1);
            assert(opt_loc(loc) == loc_at(locs, Some(before.pc)) && step_rel(insns, before.pc, loc, locs, relocs, st1, sk1,
                before.id, before.backtrack, after.state, after.stack, after.id, after.backtrack, ev, after.pc)
                && errors_after(before.errors, ev, after.errors));
            assert(walk_checks(insns, locs, relocs, before, after, row2, st1, sk1));
            lemma_walk_push(insns, locs, relocs, ws, after);
            ws = ws.push(after);
        }
    }

    finish(errors, reached_exit, total_visited, Ghost(insns))
}

/// The walk point of the verifier's variables.
pub open spec fn walk_here(
    pc: usize,
    state: VerifierState,
    stack: StackState,
    id: usize,
    backtrack: Seq<WorkItem>,
    explored: Seq<Vec<(VerifierState, StackState)>>,
    errors: Seq<VerifyError>,
    visited: usize,
    reached_exit: bool,
    done: bool,
) -> Walk {
    Walk {
        pc,
        state,
        stack,
        id,
        backtrack,
        explored: explored.map_values(|r: Vec<(VerifierState, StackState)>| r@),
        errors,
        visited,
        reached_exit,
        done,
    }
}

/// Extending a walk by a round that follows its last.
proof fn lemma_walk_push(
    insns: Seq<BpfInsn>,
    locs: Seq<Option<SourceLoc>>,
    relocs: Map<usize, RelocTarget>,
    ws: Seq<Walk>,
    w: Walk,
)
    requires
        ws.len() >= 1,
        forall|k: int| 0 <= k < ws.len() - 1 ==> #[trigger] walk_link(insns, locs, relocs, ws, k),
        walk_step(insns, locs, relocs, ws.last(), w),
    ensures
        forall|k: int| 0 <= k < ws.push(w).len() - 1 ==> #[trigger] walk_link(insns, locs, relocs, ws.push(w), k),
        ws.push(w)[0] == ws[0],
        ws.push(w).last() == w,
{
    let v = ws.push(w);
    assert forall|k: int| 0 <= k < v.len() - 1 implies #[trigger] walk_link(insns, locs, relocs, v, k) by {
        if k < ws.len() - 1 {
            assert(walk_link(insns, locs, relocs, ws, k));
            assert(v[k] == ws[k] && v[k + 1] == ws[k + 1]);
        } else {
            assert(v[k] == ws.last() && v[k + 1] == w);
        }
    }
}

} // verus!
