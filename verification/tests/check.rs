use bpf_verifier::bpf::instruction::{AluOp, BpfInsn, JmpOp, MemWidth, Opcode, Reg, Source};
use bpf_verifier::elf::parser::SourceLoc;
use bpf_verifier::kverify::check::check;
use bpf_verifier::kverify::error::ErrorKind;
fn empty_locs(n: usize) -> Vec<Option<SourceLoc>> {
    vec![None; n]
}

#[test]
fn simple_return_passes() {
    // mov r0, 0; exit
    let insns = vec![
        BpfInsn::decode(0x0000_0000_0000_00b7).unwrap(), // mov64 r0, 0
        BpfInsn::decode(0x0000_0000_0000_0095).unwrap(), // exit
    ];
    let result = check(&insns, &empty_locs(2));
    assert!(result.passed(), "errors: {:?}", result.errors);
}

#[test]
fn uninit_r0_at_exit() {
    // exit without setting r0
    let insns = vec![
        BpfInsn::decode(0x0000_0000_0000_0095).unwrap(), // exit
    ];
    let result = check(&insns, &empty_locs(1));
    assert!(!result.passed());
    assert!(matches!(result.errors[0].kind, ErrorKind::UninitReturn));
}

#[test]
fn stack_write_then_read_passes() {
    // mov64 r0, 42
    // stx w32 [r10-4], r0
    // ldx w32 r0, [r10-4]
    // exit
    let insns = vec![
        {
            let i = BpfInsn::decode(0x0000_002a_0000_00b7).unwrap(); // mov64 r0, 42
            i
        },
        BpfInsn {
            opcode: Opcode::Stx(MemWidth::W),
            dst: Reg::R10,
            src: Reg::R0,
            offset: -4,
            imm: 0,
            imm64: None,
        },
        BpfInsn {
            opcode: Opcode::Ldx(MemWidth::W),
            dst: Reg::R0,
            src: Reg::R10,
            offset: -4,
            imm: 0,
            imm64: None,
        },
        BpfInsn::decode(0x0000_0000_0000_0095).unwrap(), // exit
    ];
    let result = check(&insns, &empty_locs(4));
    assert!(result.passed(), "errors: {:?}", result.errors);
}

#[test]
fn uninit_stack_read_fails() {
    // ldx w32 r0, [r10-4]  -- reading uninitialised stack
    // exit
    let insns = vec![
        BpfInsn {
            opcode: Opcode::Ldx(MemWidth::W),
            dst: Reg::R0,
            src: Reg::R10,
            offset: -4,
            imm: 0,
            imm64: None,
        },
        BpfInsn::decode(0x0000_0000_0000_0095).unwrap(), // exit
    ];
    let result = check(&insns, &empty_locs(2));
    assert!(!result.passed());
    assert!(matches!(result.errors[0].kind, ErrorKind::UninitStackRead { .. }));
}

#[test]
fn stack_oob_fails() {
    // mov64 r0, 42; stx w32 [r10+0], r0; exit  -- writing above stack
    let insns = vec![
        BpfInsn::decode(0x0000_002a_0000_00b7).unwrap(),
        BpfInsn {
            opcode: Opcode::Stx(MemWidth::W),
            dst: Reg::R10,
            src: Reg::R0,
            offset: 0,
            imm: 0,
            imm64: None,
        },
        BpfInsn::decode(0x0000_0000_0000_0095).unwrap(),
    ];
    let result = check(&insns, &empty_locs(3));
    assert!(!result.passed());
    assert!(matches!(result.errors[0].kind, ErrorKind::OutOfBoundsAccess { .. }));
}

/// Build the standard prologue for map_lookup_elem tests:
/// sets r1 = scalar (map fd) and r2 = frame pointer (key on stack).
fn map_lookup_prologue() -> Vec<BpfInsn> {
    vec![
        // r1 = 0 (map fd placeholder -- scalar)
        BpfInsn {
            opcode: Opcode::Alu64(AluOp::Mov, Source::Imm),
            dst: Reg::R1, src: Reg::R0, offset: 0, imm: 0, imm64: None,
        },
        // r2 = r10 (frame pointer for key on stack)
        BpfInsn {
            opcode: Opcode::Alu64(AluOp::Mov, Source::Reg),
            dst: Reg::R2, src: Reg::R10, offset: 0, imm: 0, imm64: None,
        },
        // r2 += -4 (point to stack slot for key)
        BpfInsn {
            opcode: Opcode::Alu64(AluOp::Add, Source::Imm),
            dst: Reg::R2, src: Reg::R0, offset: 0, imm: -4, imm64: None,
        },
        // st [r10-4] = 0 (initialise key slot)
        BpfInsn {
            opcode: Opcode::St(MemWidth::W),
            dst: Reg::R10, src: Reg::R0, offset: -4, imm: 0, imm64: None,
        },
    ]
}

#[test]
fn null_deref_fails() {
    // prologue: set up r1 (map fd), r2 (key ptr)
    // call map_lookup_elem  (helper 1)
    // ldx w64 r1, [r0+0]   -- deref without null check
    // mov64 r0, 0
    // exit
    let mut insns = map_lookup_prologue();
    insns.extend([
        BpfInsn {
            opcode: Opcode::Call,
            dst: Reg::R0, src: Reg::R0, offset: 0, imm: 1, imm64: None,
        },
        BpfInsn {
            opcode: Opcode::Ldx(MemWidth::DW),
            dst: Reg::R1, src: Reg::R0, offset: 0, imm: 0, imm64: None,
        },
        BpfInsn::decode(0x0000_0000_0000_00b7).unwrap(), // mov64 r0, 0
        BpfInsn::decode(0x0000_0000_0000_0095).unwrap(), // exit
    ]);
    let result = check(&insns, &empty_locs(insns.len()));
    assert!(!result.passed());
    assert!(
        result.errors.iter().any(|e| matches!(e.kind, ErrorKind::NullPointerDeref { .. })),
        "expected null deref error, got: {:?}", result.errors
    );
}

#[test]
fn null_check_then_deref_passes() {
    // prologue: set up r1 (map fd), r2 (key ptr)
    // call map_lookup_elem (helper 1)  -- r0 = ptr_or_null
    // jeq r0, 0, +2                    -- if null, skip to exit
    // ldx w64 r1, [r0+0]               -- deref (safe: null check passed)
    // mov64 r0, 0
    // exit
    let mut insns = map_lookup_prologue();
    insns.extend([
        BpfInsn {
            opcode: Opcode::Call,
            dst: Reg::R0, src: Reg::R0, offset: 0, imm: 1, imm64: None,
        },
        BpfInsn {
            opcode: Opcode::Jmp64(JmpOp::Jeq, Source::Imm),
            dst: Reg::R0, src: Reg::R0, offset: 2, imm: 0, imm64: None,
        },
        BpfInsn {
            opcode: Opcode::Ldx(MemWidth::DW),
            dst: Reg::R1, src: Reg::R0, offset: 0, imm: 0, imm64: None,
        },
        BpfInsn::decode(0x0000_0000_0000_00b7).unwrap(), // mov64 r0, 0
        BpfInsn::decode(0x0000_0000_0000_0095).unwrap(), // exit
    ]);
    let result = check(&insns, &empty_locs(insns.len()));
    assert!(result.passed(), "errors: {:?}", result.errors);
}

#[test]
fn div_by_zero_fails() {
    // mov64 r0, 10; mov64 r1, 0; div64 r0, r1; exit
    let insns = vec![
        BpfInsn::decode(0x0000_000a_0000_00b7).unwrap(), // mov64 r0, 10
        BpfInsn::decode(0x0000_0000_0000_01b7).unwrap(), // mov64 r1, 0
        BpfInsn {
            opcode: Opcode::Alu64(AluOp::Div, Source::Reg),
            dst: Reg::R0,
            src: Reg::R1,
            offset: 0,
            imm: 0,
            imm64: None,
        },
        BpfInsn::decode(0x0000_0000_0000_0095).unwrap(), // exit
    ];
    let result = check(&insns, &empty_locs(4));
    assert!(!result.passed());
    assert!(
        result.errors.iter().any(|e| matches!(e.kind, ErrorKind::DivByZero { .. })),
        "expected div-by-zero error, got: {:?}", result.errors
    );
}

#[test]
fn unknown_helper_fails() {
    let insns = vec![
        BpfInsn {
            opcode: Opcode::Call,
            dst: Reg::R0,
            src: Reg::R0,
            offset: 0,
            imm: 9999, // unknown helper
            imm64: None,
        },
        BpfInsn::decode(0x0000_0000_0000_0095).unwrap(),
    ];
    let result = check(&insns, &empty_locs(2));
    assert!(!result.passed());
    assert!(matches!(result.errors[0].kind, ErrorKind::UnknownHelper { id: 9999 }));
}

#[test]
fn bounded_loop_passes() {
    // Simulate: for (i = 0; i < 3; i++) {}
    // 0: mov32 r1, 0          // i = 0
    // 1: mov32 r0, 0          // return value
    // 2: add32 r1, 1          // i++       <-- loop head
    // 3: jeq32 r1, 3, +1      // if i == 3, exit loop
    // 4: ja -3                 // back to insn 2
    // 5: exit
    let insns = vec![
        BpfInsn {
            opcode: Opcode::Alu32(AluOp::Mov, Source::Imm),
            dst: Reg::R1, src: Reg::R0, offset: 0, imm: 0, imm64: None,
        },
        BpfInsn::decode(0x0000_0000_0000_00b7).unwrap(), // mov64 r0, 0
        BpfInsn {
            opcode: Opcode::Alu32(AluOp::Add, Source::Imm),
            dst: Reg::R1, src: Reg::R0, offset: 0, imm: 1, imm64: None,
        },
        BpfInsn {
            opcode: Opcode::Jmp32(JmpOp::Jeq, Source::Imm),
            dst: Reg::R1, src: Reg::R0, offset: 1, imm: 3, imm64: None,
        },
        BpfInsn {
            opcode: Opcode::JmpJa,
            dst: Reg::R0, src: Reg::R0, offset: -3, imm: 0, imm64: None,
        },
        BpfInsn::decode(0x0000_0000_0000_0095).unwrap(), // exit
    ];
    let result = check(&insns, &empty_locs(6));
    assert!(result.passed(), "errors: {:?}", result.errors);
}

#[test]
fn ptr_leak_at_exit_fails() {
    // mov64 r0, r1  (r1 = ctx_ptr at entry)
    // exit           (returning a pointer)
    let insns = vec![
        BpfInsn {
            opcode: Opcode::Alu64(AluOp::Mov, Source::Reg),
            dst: Reg::R0,
            src: Reg::R1,
            offset: 0,
            imm: 0,
            imm64: None,
        },
        BpfInsn::decode(0x0000_0000_0000_0095).unwrap(), // exit
    ];
    let result = check(&insns, &empty_locs(2));
    assert!(!result.passed());
    assert!(
        result.errors.iter().any(|e| matches!(e.kind, ErrorKind::PtrLeak { .. })),
        "expected ptr leak error, got: {:?}", result.errors
    );
}

#[test]
fn scalar_range_refinement() {
    // mov64 r0, ???  (unknown scalar from ctx load)
    // jge r0, 10, +1  -- taken: r0 >= 10, fall: r0 < 10
    // mov64 r0, 0
    // exit
    // This tests that the branch refinement narrows bounds.
    let insns = vec![
        BpfInsn {
            opcode: Opcode::Ldx(MemWidth::W),
            dst: Reg::R0,
            src: Reg::R1, // ctx ptr
            offset: 0,
            imm: 0,
            imm64: None,
        },
        BpfInsn {
            opcode: Opcode::Jmp64(JmpOp::Jge, Source::Imm),
            dst: Reg::R0,
            src: Reg::R0,
            offset: 1,
            imm: 10,
            imm64: None,
        },
        BpfInsn::decode(0x0000_0000_0000_00b7).unwrap(), // mov64 r0, 0
        BpfInsn::decode(0x0000_0000_0000_0095).unwrap(), // exit
    ];
    let result = check(&insns, &empty_locs(4));
    assert!(result.passed(), "errors: {:?}", result.errors);
}

#[test]
fn pointer_add_scalar_passes() {
    // r2 = r10; r2 += -8; stx [r2+0], r0; -- frame ptr arithmetic
    let insns = vec![
        BpfInsn::decode(0x0000_0000_0000_00b7).unwrap(), // mov64 r0, 0
        BpfInsn {
            opcode: Opcode::Alu64(AluOp::Mov, Source::Reg),
            dst: Reg::R2,
            src: Reg::R10,
            offset: 0,
            imm: 0,
            imm64: None,
        },
        BpfInsn {
            opcode: Opcode::Alu64(AluOp::Add, Source::Imm),
            dst: Reg::R2,
            src: Reg::R0,
            offset: 0,
            imm: -8,
            imm64: None,
        },
        BpfInsn {
            opcode: Opcode::Stx(MemWidth::DW),
            dst: Reg::R2,
            src: Reg::R0,
            offset: 0,
            imm: 0,
            imm64: None,
        },
        BpfInsn::decode(0x0000_0000_0000_0095).unwrap(), // exit
    ];
    let result = check(&insns, &empty_locs(5));
    assert!(result.passed(), "errors: {:?}", result.errors);
}

#[test]
fn pointer_mul_fails() {
    // r0 = r10; r0 *= 2 -- can't multiply a pointer
    let insns = vec![
        BpfInsn {
            opcode: Opcode::Alu64(AluOp::Mov, Source::Reg),
            dst: Reg::R0,
            src: Reg::R10,
            offset: 0,
            imm: 0,
            imm64: None,
        },
        BpfInsn {
            opcode: Opcode::Alu64(AluOp::Mul, Source::Imm),
            dst: Reg::R0,
            src: Reg::R0,
            offset: 0,
            imm: 2,
            imm64: None,
        },
        BpfInsn::decode(0x0000_0000_0000_0095).unwrap(),
    ];
    let result = check(&insns, &empty_locs(3));
    assert!(!result.passed());
    assert!(
        result.errors.iter().any(|e| matches!(e.kind, ErrorKind::InvalidPointerArith { .. })),
        "expected invalid ptr arith, got: {:?}", result.errors
    );
}

#[test]
fn helper_clobbers_caller_saved() {
    // r6 = r1 (save ctx); call ktime_get_ns; ldx r0, [r6+0]; exit
    // r6 is callee-saved so it survives the call.
    // r1 is caller-saved and should be clobbered.
    let insns = vec![
        BpfInsn {
            opcode: Opcode::Alu64(AluOp::Mov, Source::Reg),
            dst: Reg::R6,
            src: Reg::R1,
            offset: 0,
            imm: 0,
            imm64: None,
        },
        BpfInsn {
            opcode: Opcode::Call,
            dst: Reg::R0,
            src: Reg::R0,
            offset: 0,
            imm: 5, // ktime_get_ns
            imm64: None,
        },
        BpfInsn {
            opcode: Opcode::Ldx(MemWidth::W),
            dst: Reg::R0,
            src: Reg::R6, // still ctx_ptr
            offset: 0,
            imm: 0,
            imm64: None,
        },
        BpfInsn::decode(0x0000_0000_0000_0095).unwrap(),
    ];
    let result = check(&insns, &empty_locs(4));
    assert!(result.passed(), "errors: {:?}", result.errors);
}

#[test]
fn read_clobbered_reg_after_call_fails() {
    // call ktime_get_ns; ldx r0, [r1+0]; exit
    // r1 was clobbered by the call.
    let insns = vec![
        BpfInsn::decode(0x0000_0000_0000_00b7).unwrap(), // mov64 r0, 0
        BpfInsn {
            opcode: Opcode::Call,
            dst: Reg::R0,
            src: Reg::R0,
            offset: 0,
            imm: 5,
            imm64: None,
        },
        BpfInsn {
            opcode: Opcode::Ldx(MemWidth::W),
            dst: Reg::R0,
            src: Reg::R1, // clobbered
            offset: 0,
            imm: 0,
            imm64: None,
        },
        BpfInsn::decode(0x0000_0000_0000_0095).unwrap(),
    ];
    let result = check(&insns, &empty_locs(4));
    assert!(!result.passed());
    assert!(
        result.errors.iter().any(|e| matches!(e.kind, ErrorKind::UninitRegRead { reg: Reg::R1 })),
        "expected uninit R1 read, got: {:?}", result.errors
    );
}

#[test]
fn jmp32_does_not_refine_64bit_range() {
    // If r0 holds a large 64-bit value (e.g. 0x1_0000_0003), a JMP32
    // comparison against 5 should only refine the low 32 bits, not
    // clamp the full 64-bit umax.
    //
    // ld_imm64 r0, 0x1_0000_0003
    // jlt32 r0, 5, +1           -- low32(r0) = 3 < 5, branch taken
    // exit                       -- fallthrough (low32(r0) >= 5)
    // exit                       -- taken (low32(r0) < 5)
    //
    // On the fallthrough path, r0 should still have umax >= 0x1_0000_0003
    // because JMP32 can't constrain the upper bits.
    let insns = vec![
        BpfInsn {
            opcode: Opcode::LdImm64,
            dst: Reg::R0, src: Reg::R0, offset: 0, imm: 0,
            imm64: Some(0x1_0000_0003),
        },
        BpfInsn {
            opcode: Opcode::Jmp32(JmpOp::Jlt, Source::Imm),
            dst: Reg::R0, src: Reg::R0, offset: 1, imm: 5, imm64: None,
        },
        BpfInsn::decode(0x0000_0000_0000_0095).unwrap(), // exit (fall)
        BpfInsn::decode(0x0000_0000_0000_0095).unwrap(), // exit (taken)
    ];
    // This should pass -- both paths exit with a scalar r0.
    let result = check(&insns, &empty_locs(4));
    assert!(result.passed(), "errors: {:?}", result.errors);
}

#[test]
fn jmp32_refines_when_upper_bits_zero() {
    // When the 64-bit value is within the 32-bit domain (umax <= 0xFFFF_FFFF),
    // JMP32 refinement should tighten normally.
    //
    // mov64 r0, 10
    // jge32 r0, 5, +1           -- taken: low32(r0) >= 5
    // exit                       -- fall: low32(r0) < 5
    // exit                       -- taken
    let insns = vec![
        BpfInsn {
            opcode: Opcode::Alu64(AluOp::Mov, Source::Imm),
            dst: Reg::R0, src: Reg::R0, offset: 0, imm: 10, imm64: None,
        },
        BpfInsn {
            opcode: Opcode::Jmp32(JmpOp::Jge, Source::Imm),
            dst: Reg::R0, src: Reg::R0, offset: 1, imm: 5, imm64: None,
        },
        BpfInsn::decode(0x0000_0000_0000_0095).unwrap(), // exit (fall)
        BpfInsn::decode(0x0000_0000_0000_0095).unwrap(), // exit (taken)
    ];
    let result = check(&insns, &empty_locs(4));
    assert!(result.passed(), "errors: {:?}", result.errors);
}
