//! Generation of the F* verification module for a programme: the
//! instruction list, lemmas for bitwise operations on known values, and
//! the safety and correctness proof obligations.

use vstd::prelude::*;

use std::collections::HashMap;

use crate::bpf::instruction::{AluOp, BpfInsn, Opcode, Source};
use crate::text::{dec_int, join_with, lemma_join_push, push_dec_i64, push_dec_u64, push_str};

verus! {

broadcast use vstd::std_specs::hash::group_hash_axioms;

/// Whether the ALU operation is a bitwise one (AND, OR, XOR).
pub open spec fn is_bitwise(op: AluOp) -> bool {
    op is And || op is Or || op is Xor
}

/// Name of the F* `UInt32` function of a bitwise operation.
pub open spec fn bitwise_name(op: AluOp) -> Seq<char> {
    match op {
        AluOp::And => "logand"@,
        AluOp::Or => "logor"@,
        _ => "logxor"@,
    }
}

fn bitwise_op_fstar(op: AluOp) -> (s: &'static str)
    requires
        is_bitwise(op),
    ensures
        s@ == bitwise_name(op),
{
    match op {
        AluOp::And => "logand",
        AluOp::Or => "logor",
        _ => "logxor",
    }
}

/// Result of a bitwise operation of a known value with an immediate.
pub open spec fn bitwise_result(op: AluOp, v: i64, imm: i32) -> i64 {
    match op {
        AluOp::And => v & (imm as i64),
        AluOp::Or => v | (imm as i64),
        _ => v ^ (imm as i64),
    }
}

/// The F* lemma for hint number `idx`: a bitwise operation on the known
/// value `v` with immediate `imm` gives `result`.
pub open spec fn hint_text(idx: nat, op: AluOp, v: i64, imm: i32, result: i64) -> Seq<char> {
    "let bitwise_hint_"@ + dec_int(idx as int) + " (x: UInt32.t) : Lemma\n"@
        + "  (requires UInt32.v x = "@ + dec_int(v as int) + ")\n"@
        + "  (ensures UInt32.v (UInt32."@ + bitwise_name(op) + " x "@ + dec_int(imm as int) + "ul) = "@
        + dec_int(result as int) + ") =\n"@
        + "  assert_norm (UInt32.v (UInt32."@ + bitwise_name(op) + " "@ + dec_int(v as int) + "ul "@
        + dec_int(imm as int) + "ul) = "@ + dec_int(result as int) + ")"@
}

/// What the hint pass knows after the first `k` instructions: the known
/// values of registers (moves of immediates, followed through stack
/// stores and loads by offset), and the hints so far.
pub open spec fn hints_run(insns: Seq<BpfInsn>, k: int) -> (Seq<Option<i64>>, Map<i16, i64>, Seq<Seq<char>>)
    decreases k,
{
    if k <= 0 {
        (Seq::new(11, |i: int| None::<i64>), Map::empty(), Seq::empty())
    } else {
        let (regs, stack, hints) = hints_run(insns, k - 1);
        let insn = insns[k - 1];
        let d = insn.dst.num() as int;
        match insn.opcode {
            Opcode::Alu32(AluOp::Mov, Source::Imm) | Opcode::Alu64(AluOp::Mov, Source::Imm) =>
                (regs.update(d, Some(insn.imm as i64)), stack, hints),
            Opcode::Stx(_) => match regs[insn.src.num() as int] {
                Some(v) => (regs, stack.insert(insn.offset, v), hints),
                None => (regs, stack.remove(insn.offset), hints),
            },
            Opcode::Ldx(_) => (regs.update(d, if stack.contains_key(insn.offset) { Some(stack[insn.offset]) } else { None }), stack, hints),
            Opcode::Alu32(op, src) | Opcode::Alu64(op, src) => if src is Imm && is_bitwise(op) {
                match regs[d] {
                    Some(v) => {
                        let result = bitwise_result(op, v, insn.imm);
                        (regs.update(d, Some(result)), stack, hints.push(hint_text(hints.len(), op, v, insn.imm, result)))
                    },
                    None => (regs, stack, hints),
                }
            } else {
                (regs.update(d, None), stack, hints)
            },
            _ => (regs, stack, hints),
        }
    }
}

/// First line pair of a hint.
pub open spec fn hint_head(idx: nat, v: i64) -> Seq<char> {
    "let bitwise_hint_"@ + dec_int(idx as int) + " (x: UInt32.t) : Lemma\n"@
        + "  (requires UInt32.v x = "@ + dec_int(v as int) + ")\n"@
}

/// The `ensures` line of a hint.
pub open spec fn hint_ensures(op: AluOp, imm: i32, result: i64) -> Seq<char> {
    "  (ensures UInt32.v (UInt32."@ + bitwise_name(op) + " x "@ + dec_int(imm as int) + "ul) = "@
        + dec_int(result as int) + ") =\n"@
}

/// The proof line of a hint.
pub open spec fn hint_proof(op: AluOp, v: i64, imm: i32, result: i64) -> Seq<char> {
    "  assert_norm (UInt32.v (UInt32."@ + bitwise_name(op) + " "@ + dec_int(v as int) + "ul "@
        + dec_int(imm as int) + "ul) = "@ + dec_int(result as int) + ")"@
}

fn push_hint_head(s: &mut String, idx: usize, v: i64)
    ensures
        final(s)@ == old(s)@ + hint_head(idx as nat, v),
{
    push_str(s, "let bitwise_hint_");
    push_dec_u64(s, idx as u64);
    push_str(s, " (x: UInt32.t) : Lemma\n");
    push_str(s, "  (requires UInt32.v x = ");
    push_dec_i64(s, v);
    push_str(s, ")\n");
    assert(final(s)@ =~= old(s)@ + hint_head(idx as nat, v));
}

fn push_hint_ensures(s: &mut String, name: &str, op: AluOp, imm: i32, result: i64)
    requires
        name@ == bitwise_name(op),
    ensures
        final(s)@ == old(s)@ + hint_ensures(op, imm, result),
{
    push_str(s, "  (ensures UInt32.v (UInt32.");
    push_str(s, name);
    push_str(s, " x ");
    push_dec_i64(s, imm as i64);
    push_str(s, "ul) = ");
    push_dec_i64(s, result);
    push_str(s, ") =\n");
    assert(final(s)@ =~= old(s)@ + hint_ensures(op, imm, result));
}

fn push_hint_proof(s: &mut String, name: &str, op: AluOp, v: i64, imm: i32, result: i64)
    requires
        name@ == bitwise_name(op),
    ensures
        final(s)@ == old(s)@ + hint_proof(op, v, imm, result),
{
    push_str(s, "  assert_norm (UInt32.v (UInt32.");
    push_str(s, name);
    push_str(s, " ");
    push_dec_i64(s, v);
    push_str(s, "ul ");
    push_dec_i64(s, imm as i64);
    push_str(s, "ul) = ");
    push_dec_i64(s, result);
    push_str(s, ")");
    assert(final(s)@ =~= old(s)@ + hint_proof(op, v, imm, result));
}

fn push_hint(s: &mut String, idx: usize, op: AluOp, v: i64, imm: i32, result: i64)
    requires
        is_bitwise(op),
    ensures
        final(s)@ == old(s)@ + hint_text(idx as nat, op, v, imm, result),
{
    let name = bitwise_op_fstar(op);
    push_hint_head(s, idx, v);
    push_hint_ensures(s, name, op, imm, result);
    push_hint_proof(s, name, op, v, imm, result);
    assert(hint_text(idx as nat, op, v, imm, result) =~= hint_head(idx as nat, v) + hint_ensures(op, imm, result)
        + hint_proof(op, v, imm, result));
    assert(final(s)@ =~= old(s)@ + hint_text(idx as nat, op, v, imm, result));
}

/// F* lemmas for the bitwise operations whose operand value is known, so
/// that F* need not evaluate them (see `hints_run`).
pub fn generate_bitwise_hints(instructions: &[BpfInsn]) -> (hints: Vec<String>)
    ensures
        hints@.map_values(|h: String| h@) == hints_run(instructions@, instructions@.len() as int).2,
{
    let mut hints: Vec<String> = Vec::new();
    let mut reg_vals: [Option<i64>; 11] = [None; 11];
    let mut stack_vals: HashMap<i16, i64> = HashMap::new();
    let mut k: usize = 0;
    while k < instructions.len()
        invariant
            k <= instructions@.len(),
            ({
                let run = hints_run(instructions@, k as int);
                &&& reg_vals@ == run.0
                &&& stack_vals@ == run.1
                &&& hints@.map_values(|h: String| h@) == run.2
            }),
        decreases instructions@.len() - k,
    {
        let insn = &instructions[k];
        let d = insn.dst.index() as usize;
        let ghost before = hints@;
        match insn.opcode {
            Opcode::Alu32(AluOp::Mov, Source::Imm) | Opcode::Alu64(AluOp::Mov, Source::Imm) => {
                reg_vals[d] = Some(insn.imm as i64);
            },
            Opcode::Stx(_) => {
                match reg_vals[insn.src.index() as usize] {
                    Some(v) => {
                        stack_vals.insert(insn.offset, v);
                    },
                    None => {
                        stack_vals.remove(&insn.offset);
                    },
                }
            },
            Opcode::Ldx(_) => {
                reg_vals[d] = match stack_vals.get(&insn.offset) {
                    Some(v) => Some(*v),
                    None => None,
                };
            },
            Opcode::Alu32(op, src) | Opcode::Alu64(op, src) => {
                if src == Source::Imm && matches!(op, AluOp::And | AluOp::Or | AluOp::Xor) {
                    if let Some(v) = reg_vals[d] {
                        let imm = insn.imm;
                        let result = match op {
                            AluOp::And => v & (imm as i64),
                            AluOp::Or => v | (imm as i64),
                            _ => v ^ (imm as i64),
                        };
                        let mut hint = String::new();
                        push_hint(&mut hint, hints.len(), op, v, imm, result);
                        hints.push(hint);
                        assert(hints@.map_values(|h: String| h@) =~= before.map_values(|h: String| h@).push(hint@));
                        reg_vals[d] = Some(result);
                    }
                } else {
                    reg_vals[d] = None;
                }
            },
            _ => {},
        }
        k = k + 1;
    }
    hints
}

/// The F* verification module of a programme: its name, the modules it
/// opens (the spec module last), the instruction list, the hints, and the
/// proof obligations (stack bounds and type safety; null safety when the
/// programme calls helpers; functional correctness against the spec).
pub open spec fn module_text(
    name: Seq<char>,
    insns: Seq<Seq<char>>,
    spec_module: Seq<char>,
    spec_name: Seq<char>,
    hints: Seq<Seq<char>>,
    has_calls: bool,
) -> Seq<char> {
    "module Verify_"@ + name + "\n\n"@
        + "open BPF.State\nopen BPF.Semantics\nopen BPF.Spec\nopen BPF.Verify\n"@
        + "open BPF.Check.StackBounds\nopen BPF.Check.TypeSafety\nopen BPF.Tactic.Layered\n"@
        + "open "@ + spec_module + "\n\n"@
        + "let program : bpf_program = [\n"@ + join_with(insns.map_values(|t: Seq<char>| "  "@ + t), ";\n"@) + "\n]\n\n"@
        + join_with(hints, "\n\n"@) + (if hints.len() > 0 { "\n\n"@ } else { Seq::empty() })
        + "let sb_proof : squash (stack_bounds_check program = true) = _ by (stack_bounds_tac ())\n\n"@
        + "let ts_proof : squash (type_check program = true) = _ by (type_check_tac ())\n\n"@
        + (if has_calls { "let ns_proof : squash (null_check program = true) = _ by (null_check_tac ())\n\n"@ } else { Seq::empty() })
        + "let proof : squash (program_satisfies program "@ + spec_name + ") = admit ()\n"@
}

fn push_joined(s: &mut String, parts: &Vec<String>, prefix: &str, sep: &str)
    ensures
        final(s)@ == old(s)@ + join_with(parts@.map_values(|p: String| prefix@ + p@), sep@),
{
    let ghost start = s@;
    let ghost all = parts@.map_values(|p: String| prefix@ + p@);
    let mut i: usize = 0;
    while i < parts.len()
        invariant
            i <= parts@.len(),
            all == parts@.map_values(|p: String| prefix@ + p@),
            s@ == start + join_with(all.take(i as int), sep@),
        decreases parts@.len() - i,
    {
        let ghost before = s@;
        if i > 0 {
            push_str(s, sep);
        }
        push_str(s, prefix);
        push_str(s, parts[i].as_str());
        proof {
            assert(all.take(i + 1) =~= all.take(i as int).push(all[i as int]));
            lemma_join_push(all.take(i as int), sep@, all[i as int]);
            if i > 0 {
                assert(s@ =~= before + sep@ + all[i as int]);
            } else {
                assert(s@ =~= before + all[i as int]);
            }
        }
        i = i + 1;
    }
    assert(all.take(all.len() as int) =~= all);
}

/// Generate the F* verification module for a programme (see
/// `module_text`).
pub fn generate_fstar(program_name: &str, instructions: &[BpfInsn], spec_module: &str, spec_name: &str) -> (out: String)
    ensures
        out@ == module_text(
            program_name@,
            instructions@.map_values(|i: BpfInsn| i.text()),
            spec_module@,
            spec_name@,
            hints_run(instructions@, instructions@.len() as int).2,
            exists|i: int| 0 <= i < instructions@.len() && (#[trigger] instructions@[i]).opcode is Call,
        ),
{
    let hints = generate_bitwise_hints(instructions);
    let mut has_calls = false;
    let mut texts: Vec<String> = Vec::new();
    let mut i: usize = 0;
    while i < instructions.len()
        invariant
            i <= instructions@.len(),
            texts@.len() == i,
            texts@.map_values(|t: String| t@) == instructions@.take(i as int).map_values(|x: BpfInsn| x.text()),
            has_calls == exists|j: int| 0 <= j < i && (#[trigger] instructions@[j]).opcode is Call,
        decreases instructions@.len() - i,
    {
        let ghost before = texts@;
        let t = instructions[i].to_fstar();
        texts.push(t);
        if matches!(instructions[i].opcode, Opcode::Call) {
            has_calls = true;
        }
        assert forall|j: int| 0 <= j < i + 1 implies #[trigger] texts@[j]@ == instructions@[j].text() by {
            if j < i {
                assert(before.map_values(|t: String| t@)[j] == instructions@.take(i as int).map_values(|x: BpfInsn| x.text())[j]);
                assert(texts@[j] == before[j]);
            }
        }
        assert(texts@.map_values(|t: String| t@) =~= instructions@.take(i + 1).map_values(|x: BpfInsn| x.text()));
        i = i + 1;
    }
    assert(instructions@.take(instructions@.len() as int) =~= instructions@);
    let mut s = String::new();
    push_str(&mut s, "module Verify_");
    push_str(&mut s, program_name);
    push_str(&mut s, "\n\n");
    push_str(&mut s, "open BPF.State\nopen BPF.Semantics\nopen BPF.Spec\nopen BPF.Verify\n");
    push_str(&mut s, "open BPF.Check.StackBounds\nopen BPF.Check.TypeSafety\nopen BPF.Tactic.Layered\n");
    push_str(&mut s, "open ");
    push_str(&mut s, spec_module);
    push_str(&mut s, "\n\n");
    push_str(&mut s, "let program : bpf_program = [\n");
    let ghost s1 = s@;
    push_joined(&mut s, &texts, "  ", ";\n");
    proof {
        let a = texts@.map_values(|p: String| "  "@ + p@);
        let b = instructions@.map_values(|i: BpfInsn| i.text()).map_values(|t: Seq<char>| "  "@ + t);
        assert(a =~= b);
    }
    push_str(&mut s, "\n]\n\n");
    let ghost s2 = s@;
    push_joined(&mut s, &hints, "", "\n\n");
    proof {
        reveal_strlit("");
        let a = hints@.map_values(|p: String| ""@ + p@);
        let b = hints_run(instructions@, instructions@.len() as int).2;
        assert forall|j: int| 0 <= j < a.len() implies a[j] == b[j] by {
            assert(""@ + hints@[j]@ =~= hints@[j]@);
        }
        assert(a =~= b);
    }
    if hints.len() > 0 {
        push_str(&mut s, "\n\n");
    }
    push_str(&mut s, "let sb_proof : squash (stack_bounds_check program = true) = _ by (stack_bounds_tac ())\n\n");
    push_str(&mut s, "let ts_proof : squash (type_check program = true) = _ by (type_check_tac ())\n\n");
    if has_calls {
        push_str(&mut s, "let ns_proof : squash (null_check program = true) = _ by (null_check_tac ())\n\n");
    }
    push_str(&mut s, "let proof : squash (program_satisfies program ");
    push_str(&mut s, spec_name);
    push_str(&mut s, ") = admit ()\n");
    proof {
        reveal_strlit("");
    }
    assert(s@ =~= module_text(
        program_name@,
        instructions@.map_values(|i: BpfInsn| i.text()),
        spec_module@,
        spec_name@,
        hints_run(instructions@, instructions@.len() as int).2,
        has_calls,
    ));
    s
}

} // verus!
