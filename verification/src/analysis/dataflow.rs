//! Path-sensitive dataflow: runs the programme along one path per choice
//! of null or non-null result for each nullable helper call, tracking
//! concrete values, and records what each path returns and writes to
//! ring buffers.

use vstd::prelude::*;

use crate::bpf::helpers::{get_helper, helper_ret, HelperReturn};
use crate::bpf::instruction::{AluOp, BpfInsn, JmpOp, MemWidth, Opcode, Source};

verus! {

/// Abstract value of a register along one path.
#[derive(Debug, Clone, Copy, PartialEq, Eq, Structural)]
pub enum AbsValue {
    Concrete(u64),
    FramePtr(i64),
    CtxPtr(i64),
    MapValuePtr(usize),
    RingBufPtr(usize),
    Null,
    Symbolic,
}

/// The outcome chosen for a nullable helper call on a path.
#[derive(Debug, Clone, Copy, PartialEq, Eq, Structural)]
pub enum PathChoice {
    NonNull,
    AsNull,
}

impl PathChoice {
    pub open spec fn text(self) -> Seq<char> {
        match self {
            PathChoice::NonNull => "NonNull"@,
            PathChoice::AsNull => "AsNull"@,
        }
    }

    pub fn to_fstar(&self) -> (s: &'static str)
        ensures
            s@ == self.text(),
    {
        match self {
            PathChoice::NonNull => "NonNull",
            PathChoice::AsNull => "AsNull",
        }
    }
}

/// A store through a ring buffer pointer: which reservation, where, how
/// wide, and the value when it is known.
#[derive(Debug, Clone, Copy)]
pub struct RingBufWrite {
    pub id: usize,
    pub offset: i64,
    pub width: MemWidth,
    pub value: Option<u64>,
}

/// What one path does: its choices, its return value when known, and its
/// ring buffer writes.
#[derive(Debug, Clone)]
pub struct PathResult {
    pub path_id: usize,
    pub schedule: Vec<PathChoice>,
    pub return_value: Option<u64>,
    pub ringbuf_writes: Vec<RingBufWrite>,
}

/// A path result with its sequences taken by their views.
pub struct PathResultView {
    pub path_id: usize,
    pub schedule: Seq<PathChoice>,
    pub return_value: Option<u64>,
    pub ringbuf_writes: Seq<RingBufWrite>,
}

impl View for PathResult {
    type V = PathResultView;

    open spec fn view(&self) -> PathResultView {
        PathResultView {
            path_id: self.path_id,
            schedule: self.schedule@,
            return_value: self.return_value,
            ringbuf_writes: self.ringbuf_writes@,
        }
    }
}

#[derive(Debug, Clone)]
pub struct DataflowResult {
    pub paths: Vec<PathResult>,
    pub has_nullable_helpers: bool,
}

/// The state of a path: registers, the next instruction, the next
/// allocation id, the schedule of choices with a cursor into it, and the
/// ring buffer writes so far.
#[derive(Debug, Clone)]
pub struct PathState {
    regs: [AbsValue; 11],
    pc: usize,
    next_ptr_id: usize,
    schedule: Vec<PathChoice>,
    schedule_cursor: usize,
    ringbuf_writes: Vec<RingBufWrite>,
}

/// A path state with its collections taken by their views.
pub struct PathView {
    pub regs: Seq<AbsValue>,
    pub pc: usize,
    pub next_ptr_id: usize,
    pub schedule: Seq<PathChoice>,
    pub cursor: usize,
    pub writes: Seq<RingBufWrite>,
}

impl View for PathState {
    type V = PathView;

    closed spec fn view(&self) -> PathView {
        PathView {
            regs: self.regs@,
            pc: self.pc,
            next_ptr_id: self.next_ptr_id,
            schedule: self.schedule@,
            cursor: self.schedule_cursor,
            writes: self.ringbuf_writes@,
        }
    }
}

/// The path state at programme entry (with the given schedule): r1 the
/// context, r10 the frame pointer, the rest symbolic.
pub open spec fn init_view(schedule: Seq<PathChoice>) -> PathView {
    PathView {
        regs: Seq::new(11, |i: int| if i == 1 { AbsValue::CtxPtr(0) } else if i == 10 { AbsValue::FramePtr(0) } else { AbsValue::Symbolic }),
        pc: 0,
        next_ptr_id: 0,
        schedule,
        cursor: 0,
        writes: Seq::empty(),
    }
}

impl PathState {
    pub fn init() -> (s: Self)
        ensures
            s@ == init_view(Seq::empty()),
    {
        let s = PathState {
            regs: [
                AbsValue::Symbolic, AbsValue::CtxPtr(0), AbsValue::Symbolic, AbsValue::Symbolic, AbsValue::Symbolic,
                AbsValue::Symbolic, AbsValue::Symbolic, AbsValue::Symbolic, AbsValue::Symbolic, AbsValue::Symbolic,
                AbsValue::FramePtr(0),
            ],
            pc: 0,
            next_ptr_id: 0,
            schedule: Vec::new(),
            schedule_cursor: 0,
            ringbuf_writes: Vec::new(),
        };
        assert(s@.regs =~= init_view(Seq::empty()).regs);
        assert(s@.schedule =~= Seq::<PathChoice>::empty());
        assert(s@.writes =~= Seq::<RingBufWrite>::empty());
        s
    }

    pub fn get(&self, reg: u8) -> (r: &AbsValue)
        requires
            reg < 11,
        ensures
            *r == self@.regs[reg as int],
    {
        &self.regs[reg as usize]
    }

    pub fn set(&mut self, reg: u8, val: AbsValue)
        requires
            reg < 11,
        ensures
            final(self)@ == (PathView { regs: old(self)@.regs.update(reg as int, val), ..old(self)@ }),
    {
        self.regs[reg as usize] = val;
    }
}

/// The return value of a path: r0 when it is a known value.
pub open spec fn concrete_of(v: AbsValue) -> Option<u64> {
    match v {
        AbsValue::Concrete(x) => Some(x),
        _ => None,
    }
}

/// Whether the helper a call instruction names returns a nullable pointer.
pub open spec fn is_nullable_call(insn: BpfInsn) -> bool {
    insn.opcode is Call && (helper_ret(insn.imm as int) == Some(HelperReturn::MapPtr)
        || helper_ret(insn.imm as int) == Some(HelperReturn::RingBufPtr))
}

/// Number of nullable helper calls among the first `k` instructions.
pub open spec fn nullable_count(insns: Seq<BpfInsn>, k: int) -> nat
    decreases k,
{
    if k <= 0 { 0 } else { nullable_count(insns, k - 1) + if is_nullable_call(insns[k - 1]) { 1nat } else { 0nat } }
}

proof fn lemma_nullable_count_bound(insns: Seq<BpfInsn>, k: int)
    requires
        0 <= k,
    ensures
        nullable_count(insns, k) <= k,
    decreases k,
{
    if k > 0 {
        lemma_nullable_count_bound(insns, k - 1);
    }
}

fn count_nullable_helpers(instructions: &[BpfInsn]) -> (c: usize)
    ensures
        c == nullable_count(instructions@, instructions@.len() as int),
{
    let mut c: usize = 0;
    let mut i: usize = 0;
    while i < instructions.len()
        invariant
            i <= instructions@.len(),
            c == nullable_count(instructions@, i as int),
        decreases instructions@.len() - i,
    {
        proof { lemma_nullable_count_bound(instructions@, i as int); }
        let insn = &instructions[i];
        let nullable = match insn.opcode {
            Opcode::Call => match get_helper(insn.imm) {
                Some(h) => h.ret_type == HelperReturn::MapPtr || h.ret_type == HelperReturn::RingBufPtr,
                None => false,
            },
            _ => false,
        };
        if nullable {
            c = c + 1;
        }
        i = i + 1;
    }
    c
}

/// Choice `i` of schedule number `bits`: bit `i` set means null.
pub open spec fn schedule_choice(bits: usize, i: usize) -> PathChoice {
    if bits & (1usize << i) == 0 { PathChoice::NonNull } else { PathChoice::AsNull }
}

/// All `2^count` schedules for `count` nullable calls: schedule `b` makes
/// call `i` null exactly when bit `i` of `b` is set.
pub fn enumerate_schedules(count: usize) -> (r: Vec<Vec<PathChoice>>)
    requires
        count < usize::BITS,
    ensures
        r@.len() == (1usize << count),
        forall|b: int| 0 <= b < r@.len() ==> (#[trigger] r@[b])@.len() == count,
        forall|b: int, i: int| 0 <= b < r@.len() && 0 <= i < count ==>
            #[trigger] r@[b]@[i] == schedule_choice(b as usize, i as usize),
{
    assert(1usize << count >= 1) by (bit_vector)
        requires count < usize::BITS;
    let total: usize = 1usize << count;
    let mut all: Vec<Vec<PathChoice>> = Vec::new();
    let mut bits: usize = 0;
    while bits < total
        invariant
            count < usize::BITS,
            total == (1usize << count),
            bits <= total,
            all@.len() == bits,
            forall|b: int| 0 <= b < bits ==> (#[trigger] all@[b])@.len() == count,
            forall|b: int, i: int| 0 <= b < bits && 0 <= i < count ==>
                #[trigger] all@[b]@[i] == schedule_choice(b as usize, i as usize),
        decreases total - bits,
    {
        let mut sched: Vec<PathChoice> = Vec::new();
        let mut i: usize = 0;
        while i < count
            invariant
                count < usize::BITS,
                i <= count,
                sched@.len() == i,
                forall|j: int| 0 <= j < i ==> #[trigger] sched@[j] == schedule_choice(bits, j as usize),
            decreases count - i,
        {
            let c = if bits & (1usize << i) == 0 { PathChoice::NonNull } else { PathChoice::AsNull };
            sched.push(c);
            i = i + 1;
        }
        all.push(sched);
        bits = bits + 1;
    }
    all
}

/// The path state with register `r` set to `v`.
pub open spec fn with_reg(s: PathView, r: int, v: AbsValue) -> PathView {
    PathView { regs: s.regs.update(r, v), ..s }
}

/// The path state moved on to the next instruction.
pub open spec fn advance(s: PathView) -> PathView {
    PathView { pc: (s.pc + 1) as usize, ..s }
}

/// A register value after adding (or, when `sub`, subtracting) an
/// immediate: pointers move and known values change (both wrapping);
/// anything else becomes symbolic.
pub open spec fn moved_value(v: AbsValue, imm: i32, sub: bool) -> AbsValue {
    match v {
        AbsValue::FramePtr(off) => AbsValue::FramePtr(if sub {
            vstd::wrapping::i64_specs::wrapping_sub(off, imm as i64) } else {
            vstd::wrapping::i64_specs::wrapping_add(off, imm as i64) }),
        AbsValue::CtxPtr(off) => AbsValue::CtxPtr(if sub {
            vstd::wrapping::i64_specs::wrapping_sub(off, imm as i64) } else {
            vstd::wrapping::i64_specs::wrapping_add(off, imm as i64) }),
        AbsValue::Concrete(x) => AbsValue::Concrete(if sub {
            vstd::wrapping::u64_specs::wrapping_sub(x, imm as u64) } else {
            vstd::wrapping::u64_specs::wrapping_add(x, imm as u64) }),
        _ => AbsValue::Symbolic,
    }
}

fn move_value(v: AbsValue, imm: i32, sub: bool) -> (r: AbsValue)
    ensures
        r == moved_value(v, imm, sub),
{
    match v {
        AbsValue::FramePtr(off) => AbsValue::FramePtr(if sub { off.wrapping_sub(imm as i64) } else { off.wrapping_add(imm as i64) }),
        AbsValue::CtxPtr(off) => AbsValue::CtxPtr(if sub { off.wrapping_sub(imm as i64) } else { off.wrapping_add(imm as i64) }),
        AbsValue::Concrete(x) => AbsValue::Concrete(if sub { x.wrapping_sub(imm as u64) } else { x.wrapping_add(imm as u64) }),
        _ => AbsValue::Symbolic,
    }
}

/// A helper call: a nullable helper takes the next choice of the schedule
/// (non-null once the schedule is used up) and a fresh allocation id; any
/// other helper leaves r0 symbolic. r1-r5 become symbolic.
pub open spec fn call_view(s: PathView, insn: BpfInsn) -> PathView {
    let ret = helper_ret(insn.imm as int);
    let s1 = if ret == Some(HelperReturn::MapPtr) || ret == Some(HelperReturn::RingBufPtr) {
        let has = s.cursor < s.schedule.len();
        let choice = if has { s.schedule[s.cursor as int] } else { PathChoice::NonNull };
        let id = s.next_ptr_id;
        let r0 = match choice {
            PathChoice::NonNull => if ret == Some(HelperReturn::MapPtr) { AbsValue::MapValuePtr(id) } else { AbsValue::RingBufPtr(id) },
            PathChoice::AsNull => AbsValue::Null,
        };
        PathView {
            regs: s.regs.update(0, r0),
            next_ptr_id: (id + 1) as usize,
            cursor: if has { (s.cursor + 1) as usize } else { s.cursor },
            ..s
        }
    } else {
        with_reg(s, 0, AbsValue::Symbolic)
    };
    PathView { regs: Seq::new(11, |i: int| if 1 <= i <= 5 { AbsValue::Symbolic } else { s1.regs[i] }), ..s1 }
}

/// Effect of an instruction, ignoring jumps, then moving on.
pub open spec fn abstract_view(s: PathView, insn: BpfInsn) -> PathView {
    let d = insn.dst.num() as int;
    let sr = insn.src.num() as int;
    match insn.opcode {
        Opcode::Alu64(op, Source::Reg) => advance(with_reg(s, d, if op is Mov { s.regs[sr] } else { AbsValue::Symbolic })),
        Opcode::Alu64(op, Source::Imm) => advance(with_reg(s, d, match op {
            AluOp::Mov => AbsValue::Concrete(insn.imm as u64),
            AluOp::Add => moved_value(s.regs[d], insn.imm, false),
            AluOp::Sub => moved_value(s.regs[d], insn.imm, true),
            _ => AbsValue::Symbolic,
        })),
        Opcode::Alu32(op, src) => advance(with_reg(s, d, if op is Mov && src is Imm {
            AbsValue::Concrete(insn.imm as u64) } else { AbsValue::Symbolic })),
        Opcode::LdImm64 => advance(with_reg(s, d, AbsValue::Concrete(insn.imm64_value()))),
        Opcode::Ldx(_) => advance(with_reg(s, d, AbsValue::Symbolic)),
        Opcode::Stx(w) => advance(match s.regs[d] {
            AbsValue::RingBufPtr(id) => PathView { writes: s.writes.push(RingBufWrite {
                id, offset: insn.offset as i64, width: w, value: concrete_of(s.regs[sr]) }), ..s },
            _ => s,
        }),
        Opcode::St(w) => advance(match s.regs[d] {
            AbsValue::RingBufPtr(id) => PathView { writes: s.writes.push(RingBufWrite {
                id, offset: insn.offset as i64, width: w, value: Some(insn.imm as u64) }), ..s },
            _ => s,
        }),
        Opcode::Call => advance(call_view(s, insn)),
        _ => advance(s),
    }
}

/// Whether a conditional jump is taken, when the path determines it: a
/// null or non-null pointer compared with zero, or a known value compared
/// (JEQ, JNE, JGT, JGE, JLT, JLE) with a known operand.
pub open spec fn resolve_view(s: PathView, insn: BpfInsn) -> Option<bool> {
    let operand = match insn.opcode {
        Opcode::Jmp64(_, Source::Imm) | Opcode::Jmp32(_, Source::Imm) => Some(insn.imm as u64),
        _ => concrete_of(s.regs[insn.src.num() as int]),
    };
    let op = match insn.opcode {
        Opcode::Jmp64(op, _) | Opcode::Jmp32(op, _) => op,
        _ => JmpOp::Ja,
    };
    if !(insn.opcode is Jmp64 || insn.opcode is Jmp32) {
        None
    } else {
        match s.regs[insn.dst.num() as int] {
            AbsValue::Null => if operand == Some(0u64) && op is Jeq { Some(true) }
                else if operand == Some(0u64) && op is Jne { Some(false) } else { None },
            AbsValue::MapValuePtr(_) | AbsValue::RingBufPtr(_) => if operand == Some(0u64) && op is Jeq { Some(false) }
                else if operand == Some(0u64) && op is Jne { Some(true) } else { None },
            AbsValue::Concrete(v) => match operand {
                Some(x) => match op {
                    JmpOp::Jeq => Some(v == x),
                    JmpOp::Jne => Some(v != x),
                    JmpOp::Jgt => Some(v > x),
                    JmpOp::Jge => Some(v >= x),
                    JmpOp::Jlt => Some(v < x),
                    JmpOp::Jle => Some(v <= x),
                    _ => None,
                },
                None => None,
            },
            _ => None,
        }
    }
}

/// Whether `insn` compares its destination register with zero by JEQ or
/// JNE (64- or 32-bit, immediate operand).
pub open spec fn zero_test(insn: BpfInsn) -> bool {
    &&& insn.imm == 0
    &&& match insn.opcode {
        Opcode::Jmp64(op, Source::Imm) | Opcode::Jmp32(op, Source::Imm) => op is Jeq || op is Jne,
        _ => false,
    }
}

/// Whether a value is a pointer that a helper handed out non-null.
pub open spec fn non_null_ptr(v: AbsValue) -> bool {
    v is MapValuePtr || v is RingBufPtr
}

/// A zero test of a non-null pointer resolves as it would for any known
/// nonzero value, and a zero test of a null pointer as for the value 0.
pub proof fn lemma_zero_test_of_pointers(s: PathView, insn: BpfInsn, p: AbsValue, v: u64)
    requires
        zero_test(insn),
        0 <= insn.dst.num() < s.regs.len(),
        non_null_ptr(p),
        v != 0,
    ensures
        resolve_view(with_reg(s, insn.dst.num() as int, p), insn)
            == resolve_view(with_reg(s, insn.dst.num() as int, AbsValue::Concrete(v)), insn),
        resolve_view(with_reg(s, insn.dst.num() as int, AbsValue::Null), insn)
            == resolve_view(with_reg(s, insn.dst.num() as int, AbsValue::Concrete(0)), insn),
        resolve_view(with_reg(s, insn.dst.num() as int, p), insn) is Some,
{
}

/// Along a path, JEQ r, 0 falls through and JNE r, 0 jumps when r holds a
/// non-null pointer; a null pointer takes the other side.
pub proof fn lemma_zero_test_branch(s: PathView, insn: BpfInsn)
    requires
        zero_test(insn),
        0 <= insn.dst.num() < s.regs.len(),
        non_null_ptr(s.regs[insn.dst.num() as int]) || s.regs[insn.dst.num() as int] is Null,
    ensures
        branch_view(s, insn).pc == (if (match insn.opcode {
            Opcode::Jmp64(op, _) | Opcode::Jmp32(op, _) => op is Jeq,
            _ => false,
        }) == (s.regs[insn.dst.num() as int] is Null) {
            jump_to(s.pc, insn.offset)
        } else {
            (s.pc + 1) as usize
        }),
{
}

/// The index a jump at `pc` with offset `off` goes to.
pub open spec fn jump_to(pc: usize, off: i16) -> usize {
    (pc + 1 + off) as usize
}

/// Effect of an instruction along a path: jumps follow the resolved side
/// (the fall-through side when unresolved), EXIT stays put.
pub open spec fn branch_view(s: PathView, insn: BpfInsn) -> PathView {
    match insn.opcode {
        Opcode::Jmp64(_, _) | Opcode::Jmp32(_, _) => PathView {
            pc: if resolve_view(s, insn) == Some(true) { jump_to(s.pc, insn.offset) } else { (s.pc + 1) as usize },
            ..s
        },
        Opcode::JmpJa => PathView { pc: jump_to(s.pc, insn.offset), ..s },
        Opcode::Call => advance(call_view(s, insn)),
        Opcode::Exit => s,
        _ => abstract_view(s, insn),
    }
}

/// The path from state `s` with `fuel` steps left: the state at its EXIT,
/// or none when it runs out of fuel or off the programme.
pub open spec fn run_path(insns: Seq<BpfInsn>, s: PathView, fuel: nat) -> Option<PathView>
    decreases fuel,
{
    if fuel == 0 || s.pc >= insns.len() {
        None
    } else if insns[s.pc as int].opcode is Exit {
        Some(s)
    } else {
        run_path(insns, branch_view(s, insns[s.pc as int]), (fuel - 1) as nat)
    }
}

/// The straight-line run from instruction `k`, ignoring jumps, up to the
/// first EXIT.
pub open spec fn run_single(insns: Seq<BpfInsn>, k: int, s: PathView) -> PathView
    decreases insns.len() - k,
{
    if k >= insns.len() {
        s
    } else {
        let s1 = PathView { pc: k as usize, ..s };
        if insns[k].opcode is Exit { s1 } else { run_single(insns, k + 1, abstract_view(s1, insns[k])) }
    }
}

/// The result of a path that ended in state `s`.
pub open spec fn result_of(path_id: usize, schedule: Seq<PathChoice>, s: PathView) -> PathResultView {
    PathResultView { path_id, schedule, return_value: concrete_of(s.regs[0]), ringbuf_writes: s.writes }
}

/// Schedule number `b` for `count` nullable calls.
pub open spec fn schedule_of(count: usize, b: int) -> Seq<PathChoice> {
    Seq::new(count as nat, |i: int| schedule_choice(b as usize, i as usize))
}

/// Results of the paths of the first `b` schedules that reach EXIT.
pub open spec fn collected(insns: Seq<BpfInsn>, count: usize, b: int) -> Seq<PathResultView>
    decreases b,
{
    if b <= 0 {
        Seq::empty()
    } else {
        let prev = collected(insns, count, b - 1);
        match run_path(insns, init_view(schedule_of(count, b - 1)), (2 * insns.len()) as nat) {
            Some(s) => prev.push(result_of((b - 1) as usize, schedule_of(count, b - 1), s)),
            None => prev,
        }
    }
}

fn handle_call(state: &mut PathState, insn: &BpfInsn)
    requires
        old(state)@.next_ptr_id < usize::MAX,
    ensures
        final(state)@ == call_view(old(state)@, *insn),
{
    let ghost s0 = state@;
    let ret = match get_helper(insn.imm) {
        Some(h) => Some(h.ret_type),
        None => None,
    };
    match ret {
        Some(HelperReturn::MapPtr) | Some(HelperReturn::RingBufPtr) => {
            let has = state.schedule_cursor < state.schedule.len();
            let choice = if has {
                let c = state.schedule[state.schedule_cursor];
                state.schedule_cursor = state.schedule_cursor + 1;
                c
            } else {
                PathChoice::NonNull
            };
            let id = state.next_ptr_id;
            state.next_ptr_id = state.next_ptr_id + 1;
            let r0 = match choice {
                PathChoice::NonNull => if ret == Some(HelperReturn::MapPtr) { AbsValue::MapValuePtr(id) } else { AbsValue::RingBufPtr(id) },
                PathChoice::AsNull => AbsValue::Null,
            };
            state.regs[0] = r0;
        },
        _ => {
            state.regs[0] = AbsValue::Symbolic;
        },
    }
    let ghost s1 = state@;
    let mut r: usize = 1;
    while r <= 5
        invariant
            1 <= r <= 6,
            state.regs@.len() == 11,
            state@ == (PathView { regs: state@.regs, ..s1 }),
            forall|i: int| 0 <= i < 11 ==> #[trigger] state@.regs[i] == (if 1 <= i < r { AbsValue::Symbolic } else { s1.regs[i] }),
        decreases 6 - r,
    {
        state.regs[r] = AbsValue::Symbolic;
        r = r + 1;
    }
    assert(state@.regs =~= call_view(s0, *insn).regs);
}

/// Apply an instruction, ignoring jumps, and move on (see `abstract_view`).
fn transfer_abstract(state: &mut PathState, insn: &BpfInsn)
    requires
        old(state)@.next_ptr_id < usize::MAX,
        old(state)@.pc < usize::MAX,
    ensures
        final(state)@ == abstract_view(old(state)@, *insn),
{
    let dst = insn.dst.index();
    let src = insn.src.index();
    match insn.opcode {
        Opcode::Alu64(op, Source::Reg) => {
            let v = if op == AluOp::Mov { *state.get(src) } else { AbsValue::Symbolic };
            state.set(dst, v);
        },
        Opcode::Alu64(op, Source::Imm) => {
            let v = match op {
                AluOp::Mov => AbsValue::Concrete(insn.imm as u64),
                AluOp::Add => move_value(*state.get(dst), insn.imm, false),
                AluOp::Sub => move_value(*state.get(dst), insn.imm, true),
                _ => AbsValue::Symbolic,
            };
            state.set(dst, v);
        },
        Opcode::Alu32(op, src_kind) => {
            let v = if op == AluOp::Mov && src_kind == Source::Imm { AbsValue::Concrete(insn.imm as u64) } else { AbsValue::Symbolic };
            state.set(dst, v);
        },
        Opcode::LdImm64 => {
            state.set(dst, AbsValue::Concrete(insn.ld_imm64_value()));
        },
        Opcode::Ldx(_) => {
            state.set(dst, AbsValue::Symbolic);
        },
        Opcode::Stx(w) => {
            if let AbsValue::RingBufPtr(id) = *state.get(dst) {
                let value = match state.get(src) {
                    AbsValue::Concrete(v) => Some(*v),
                    _ => None,
                };
                state.ringbuf_writes.push(RingBufWrite { id, offset: insn.offset as i64, width: w, value });
            }
        },
        Opcode::St(w) => {
            if let AbsValue::RingBufPtr(id) = *state.get(dst) {
                state.ringbuf_writes.push(RingBufWrite { id, offset: insn.offset as i64, width: w, value: Some(insn.imm as u64) });
            }
        },
        Opcode::Call => {
            handle_call(state, insn);
        },
        _ => {},
    }
    state.pc = state.pc + 1;
}

/// Whether a conditional jump is taken on this path, when it is
/// determined (see `resolve_view`).
fn resolve_branch(state: &PathState, insn: &BpfInsn) -> (r: Option<bool>)
    ensures
        r == resolve_view(state@, *insn),
{
    let op = match insn.opcode {
        Opcode::Jmp64(op, _) | Opcode::Jmp32(op, _) => op,
        _ => {
            return None;
        },
    };
    let operand: Option<u64> = match insn.opcode {
        Opcode::Jmp64(_, Source::Imm) | Opcode::Jmp32(_, Source::Imm) => Some(insn.imm as u64),
        _ => match state.get(insn.src.index()) {
            AbsValue::Concrete(v) => Some(*v),
            _ => None,
        },
    };
    let is_zero = match operand {
        Some(x) => x == 0,
        None => false,
    };
    match state.get(insn.dst.index()) {
        AbsValue::Null => if is_zero && op == JmpOp::Jeq { Some(true) }
            else if is_zero && op == JmpOp::Jne { Some(false) } else { None },
        AbsValue::MapValuePtr(_) | AbsValue::RingBufPtr(_) => if is_zero && op == JmpOp::Jeq { Some(false) }
            else if is_zero && op == JmpOp::Jne { Some(true) } else { None },
        AbsValue::Concrete(v) => match operand {
            Some(x) => match op {
                JmpOp::Jeq => Some(*v == x),
                JmpOp::Jne => Some(*v != x),
                JmpOp::Jgt => Some(*v > x),
                JmpOp::Jge => Some(*v >= x),
                JmpOp::Jlt => Some(*v < x),
                JmpOp::Jle => Some(*v <= x),
                _ => None,
            },
            None => None,
        },
        _ => None,
    }
}

fn jump_target(pc: usize, off: i16) -> (t: usize)
    requires
        pc <= 0x7FFF_0000,
    ensures
        t == jump_to(pc, off),
{
    let t: i64 = pc as i64 + 1 + off as i64;
    t as usize
}

/// Apply an instruction along a path (see `branch_view`). Always true.
fn transfer_with_branches(state: &mut PathState, insn: &BpfInsn) -> (ok: bool)
    requires
        old(state)@.next_ptr_id < usize::MAX,
        old(state)@.pc <= 0x7FFF_0000,
    ensures
        ok,
        final(state)@ == branch_view(old(state)@, *insn),
{
    let pc = state.pc;
    match insn.opcode {
        Opcode::Jmp64(_, _) | Opcode::Jmp32(_, _) => {
            let target = jump_target(pc, insn.offset);
            match resolve_branch(state, insn) {
                Some(true) => {
                    state.pc = target;
                },
                _ => {
                    state.pc = pc + 1;
                },
            }
            true
        },
        Opcode::JmpJa => {
            state.pc = jump_target(pc, insn.offset);
            true
        },
        Opcode::Call => {
            handle_call(state, insn);
            state.pc = pc + 1;
            true
        },
        Opcode::Exit => true,
        _ => {
            transfer_abstract(state, insn);
            true
        },
    }
}

fn copy_choices(s: &[PathChoice]) -> (r: Vec<PathChoice>)
    ensures
        r@ == s@,
{
    let mut r: Vec<PathChoice> = Vec::new();
    let mut i: usize = 0;
    while i < s.len()
        invariant
            i <= s@.len(),
            r@ == s@.take(i as int),
        decreases s@.len() - i,
    {
        r.push(s[i]);
        assert(s@.take(i + 1) =~= s@.take(i as int).push(s@[i as int]));
        i = i + 1;
    }
    assert(s@.take(s@.len() as int) =~= s@);
    r
}

fn result_from(path_id: usize, schedule: &[PathChoice], state: PathState) -> (r: PathResult)
    ensures
        r@ == result_of(path_id, schedule@, state@),
{
    let return_value = match state.regs[0] {
        AbsValue::Concrete(v) => Some(v),
        _ => None,
    };
    PathResult { path_id, schedule: copy_choices(schedule), return_value, ringbuf_writes: state.ringbuf_writes }
}

/// The single path of a programme without nullable helpers: the
/// straight-line run up to the first EXIT.
fn single_path(instructions: &[BpfInsn]) -> (r: PathResult)
    requires
        instructions@.len() <= 0x7FFF_0000,
    ensures
        r@ == result_of(0, Seq::empty(), run_single(instructions@, 0, init_view(Seq::empty()))),
{
    let mut state = PathState::init();
    let ghost target = run_single(instructions@, 0, init_view(Seq::empty()));
    let mut pc: usize = 0;
    let mut done = false;
    while pc < instructions.len() && !done
        invariant
            pc <= instructions@.len() <= 0x7FFF_0000,
            state@.next_ptr_id <= pc,
            target == run_single(instructions@, 0, init_view(Seq::empty())),
            !done ==> run_single(instructions@, pc as int, state@) == target,
            done ==> state@ == target,
        decreases instructions@.len() - pc + (if done { 0int } else { 1int }),
    {
        state.pc = pc;
        if matches!(instructions[pc].opcode, Opcode::Exit) {
            done = true;
        } else {
            transfer_abstract(&mut state, &instructions[pc]);
            pc = pc + 1;
        }
    }
    let empty: Vec<PathChoice> = Vec::new();
    result_from(0, empty.as_slice(), state)
}

/// Run the path of one schedule, with at most twice as many steps as
/// there are instructions; none when it does not reach EXIT.
fn execute_path(instructions: &[BpfInsn], schedule: &[PathChoice], path_id: usize) -> (r: Option<PathResult>)
    requires
        instructions@.len() <= 0x7FFF_0000,
    ensures
        match run_path(instructions@, init_view(schedule@), (2 * instructions@.len()) as nat) {
            Some(s) => r matches Some(p) && p@ == result_of(path_id, schedule@, s),
            None => r is None,
        },
{
    let mut state = PathState::init();
    state.schedule = copy_choices(schedule);
    proof { assert(state@ == init_view(schedule@)); }
    let n = instructions.len();
    let mut fuel: usize = n * 2;
    let ghost target = run_path(instructions@, init_view(schedule@), (2 * n) as nat);
    loop
        invariant
            n == instructions@.len() <= 0x7FFF_0000,
            fuel <= 2 * n,
            state@.next_ptr_id <= 2 * n - fuel,
            state@.schedule == schedule@,
            target == run_path(instructions@, init_view(schedule@), (2 * n) as nat),
            run_path(instructions@, state@, fuel as nat) == target,
        decreases fuel,
    {
        if fuel == 0 || state.pc >= n {
            return None;
        }
        fuel = fuel - 1;
        let insn = &instructions[state.pc];
        if matches!(insn.opcode, Opcode::Exit) {
            return Some(result_from(path_id, schedule, state));
        }
        let ok = transfer_with_branches(&mut state, insn);
        if !ok {
            return None;
        }
    }
}

/// Run the dataflow analysis. Without nullable helper calls there is one
/// path, the straight-line run; otherwise each of the `2^k` schedules for
/// the `k` nullable calls is run, and the paths that reach EXIT are kept,
/// in schedule order.
pub fn analyse(instructions: &[BpfInsn]) -> (r: DataflowResult)
    requires
        instructions@.len() <= 0x7FFF_0000,
        nullable_count(instructions@, instructions@.len() as int) < usize::BITS,
    ensures
        r.has_nullable_helpers == (nullable_count(instructions@, instructions@.len() as int) > 0),
        !r.has_nullable_helpers ==> r.paths@.len() == 1
            && r.paths@[0]@ == result_of(0, Seq::empty(), run_single(instructions@, 0, init_view(Seq::empty()))),
        r.has_nullable_helpers ==> r.paths@.map_values(|p: PathResult| p@) == collected(
            instructions@, nullable_count(instructions@, instructions@.len() as int) as usize,
            (1usize << nullable_count(instructions@, instructions@.len() as int) as usize) as int),
{
    let count = count_nullable_helpers(instructions);
    if count == 0 {
        let mut paths: Vec<PathResult> = Vec::new();
        paths.push(single_path(instructions));
        return DataflowResult { paths, has_nullable_helpers: false };
    }
    let schedules = enumerate_schedules(count);
    let mut paths: Vec<PathResult> = Vec::new();
    let mut path_id: usize = 0;
    while path_id < schedules.len()
        invariant
            instructions@.len() <= 0x7FFF_0000,
            count == nullable_count(instructions@, instructions@.len() as int),
            path_id <= schedules@.len(),
            forall|b: int| 0 <= b < schedules@.len() ==> (#[trigger] schedules@[b])@.len() == count,
            forall|b: int, i: int| 0 <= b < schedules@.len() && 0 <= i < count ==>
                #[trigger] schedules@[b]@[i] == schedule_choice(b as usize, i as usize),
            paths@.map_values(|p: PathResult| p@) == collected(instructions@, count, path_id as int),
        decreases schedules@.len() - path_id,
    {
        assert(schedules@[path_id as int]@ =~= schedule_of(count, path_id as int));
        let res = execute_path(instructions, schedules[path_id].as_slice(), path_id);
        let ghost before = paths@;
        if let Some(p) = res {
            paths.push(p);
            assert(paths@.map_values(|p: PathResult| p@) =~= before.map_values(|p: PathResult| p@).push(p@));
        }
        path_id = path_id + 1;
    }
    DataflowResult { paths, has_nullable_helpers: true }
}

} // verus!
