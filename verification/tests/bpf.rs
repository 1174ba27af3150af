use bpf_verifier::analysis::dataflow::{self, enumerate_schedules, AbsValue, PathChoice, PathState};
use bpf_verifier::analysis::stack_bounds;
use bpf_verifier::bpf::basic_block::find_basic_blocks;
use bpf_verifier::bpf::instruction::{AluOp, BpfInsn, JmpOp, Opcode, Reg, Source};
use bpf_verifier::codegen::fstar::generate_fstar;

fn make_insn(opcode: Opcode, offset: i16) -> BpfInsn {
    BpfInsn { opcode, dst: Reg::R0, src: Reg::R0, offset, imm: 0, imm64: None }
}

#[test]
fn no_nullable_helpers_produces_single_path() {
    let insns = vec![
        BpfInsn::decode(0x0000_0000_0000_10bf).unwrap(),
        BpfInsn::decode(0x0000_0000_0000_0095).unwrap(),
    ];
    let result = dataflow::analyse(&insns);
    assert!(!result.has_nullable_helpers);
    assert_eq!(result.paths.len(), 1);
}

#[test]
fn enumerate_two_schedules_for_one_nullable() {
    let schedules = enumerate_schedules(1);
    assert_eq!(schedules.len(), 2);
    assert_eq!(schedules[0], vec![PathChoice::NonNull]);
    assert_eq!(schedules[1], vec![PathChoice::AsNull]);
}

#[test]
fn enumerate_four_schedules_for_two_nullable() {
    let schedules = enumerate_schedules(2);
    assert_eq!(schedules.len(), 4);
}

#[test]
fn concrete_mov_tracks_value() {
    let mut state = PathState::init();
    state.set(0, AbsValue::Concrete(42));
    assert_eq!(*state.get(0), AbsValue::Concrete(42));
}

#[test]
fn simple_program_passes() {
    let insns = vec![
        BpfInsn::decode(0x0000_0000_0000_10bf).unwrap(),
        BpfInsn::decode(0x0000_0000_0000_0095).unwrap(),
    ];
    let result = stack_bounds::analyse(&insns);
    assert!(result.passed);
    assert_eq!(result.steps.len(), 2);
}

#[test]
fn witness_steps_serialise() {
    let insns = vec![
        BpfInsn::decode(0x0000_0000_0000_10bf).unwrap(),
        BpfInsn::decode(0x0000_0000_0000_0095).unwrap(),
    ];
    let result = stack_bounds::analyse(&insns);
    for step in &result.steps {
        let s = step.to_fstar();
        assert!(s.contains("check_insn_sb"));
        assert!(s.contains("assert_norm"));
    }
}

#[test]
fn linear_programme_is_one_block() {
    let insns = vec![
        make_insn(Opcode::Alu32(AluOp::Mov, Source::Imm), 0),
        make_insn(Opcode::Alu32(AluOp::Add, Source::Imm), 0),
        make_insn(Opcode::Exit, 0),
    ];
    let blocks = find_basic_blocks(&insns);
    assert_eq!(blocks.len(), 1);
    assert_eq!(blocks[0].start, 0);
    assert_eq!(blocks[0].end, 3);
}

#[test]
fn branch_splits_into_blocks() {
    let insns = vec![
        make_insn(Opcode::Alu32(AluOp::Mov, Source::Imm), 0),
        make_insn(Opcode::Jmp32(JmpOp::Jeq, Source::Imm), 1),
        make_insn(Opcode::Alu32(AluOp::Mov, Source::Imm), 0),
        make_insn(Opcode::Exit, 0),
    ];
    let blocks = find_basic_blocks(&insns);
    assert_eq!(blocks.len(), 3);
    assert_eq!(blocks[0].start, 0);
    assert_eq!(blocks[0].end, 2);
    assert_eq!(blocks[1].start, 2);
    assert_eq!(blocks[1].end, 3);
    assert_eq!(blocks[2].start, 3);
    assert_eq!(blocks[2].end, 4);
}

#[test]
fn decode_alu64_add_reg() {
    let raw: u64 = 0x0000_0000_0000_100f;
    let insn = BpfInsn::decode(raw).unwrap();
    assert_eq!(insn.opcode, Opcode::Alu64(AluOp::Add, Source::Reg));
    assert_eq!(insn.dst, Reg::R0);
    assert_eq!(insn.src, Reg::R1);
    assert_eq!(insn.offset, 0);
    assert_eq!(insn.imm, 0);
    assert_eq!(insn.to_fstar(), "BPF_ALU64_REG ADD r0 r1");
}

#[test]
fn decode_alu64_add_imm() {
    let raw: u64 = 0x0000_002a_0000_0007;
    let insn = BpfInsn::decode(raw).unwrap();
    assert_eq!(insn.opcode, Opcode::Alu64(AluOp::Add, Source::Imm));
    assert_eq!(insn.dst, Reg::R0);
    assert_eq!(insn.imm, 42);
    assert_eq!(insn.to_fstar(), "BPF_ALU64_IMM ADD r0 42l");
}

#[test]
fn decode_alu32_add_reg() {
    let raw: u64 = 0x0000_0000_0000_320c;
    let insn = BpfInsn::decode(raw).unwrap();
    assert_eq!(insn.opcode, Opcode::Alu32(AluOp::Add, Source::Reg));
    assert_eq!(insn.dst, Reg::R2);
    assert_eq!(insn.src, Reg::R3);
    assert_eq!(insn.to_fstar(), "BPF_ALU32_REG ADD r2 r3");
}

#[test]
fn decode_exit() {
    let raw: u64 = 0x0000_0000_0000_0095;
    let insn = BpfInsn::decode(raw).unwrap();
    assert_eq!(insn.opcode, Opcode::Exit);
    assert_eq!(insn.to_fstar(), "BPF_EXIT");
}

#[test]
fn decode_mov64_imm() {
    let raw: u64 = 0x0000_0000_0000_00b7;
    let insn = BpfInsn::decode(raw).unwrap();
    assert_eq!(insn.opcode, Opcode::Alu64(AluOp::Mov, Source::Imm));
    assert_eq!(insn.dst, Reg::R0);
    assert_eq!(insn.imm, 0);
    assert_eq!(insn.to_fstar(), "BPF_ALU64_IMM MOV r0 0l");
}

#[test]
fn generate_simple_program() {
    let instructions = vec![
        BpfInsn::decode(0x0000_0000_0000_10bf).unwrap(),
        BpfInsn::decode(0x0000_0000_0000_200f).unwrap(),
        BpfInsn::decode(0x0000_0000_0000_0095).unwrap(),
    ];
    let output = generate_fstar("test_prog", &instructions, "TestSpec", "test_spec");
    assert!(output.contains("module Verify_test_prog"));
    assert!(output.contains("open BPF.State"));
    assert!(output.contains("open BPF.Semantics"));
    assert!(output.contains("open BPF.Spec"));
    assert!(output.contains("open BPF.Verify"));
    assert!(output.contains("open BPF.Check.StackBounds"));
    assert!(output.contains("open BPF.Check.TypeSafety"));
    assert!(output.contains("open BPF.Tactic.Layered"));
    assert!(output.contains("open TestSpec"));
    assert!(output.contains("BPF_ALU64_REG MOV r0 r1"));
    assert!(output.contains("BPF_ALU64_REG ADD r0 r2"));
    assert!(output.contains("BPF_EXIT"));
    assert!(output.contains("stack_bounds_check program"));
    assert!(output.contains("stack_bounds_tac"));
    assert!(output.contains("type_check program"));
    assert!(output.contains("type_check_tac"));
    assert!(output.contains("program_satisfies program test_spec"));
}
