use bpf_verifier::bpf::instruction::Reg;
use bpf_verifier::kverify::state::{RegState, RegType, StackState, Tnum, VerifierState};
#[test]
fn tnum_constant() {
    let t = Tnum::constant(42);
    assert!(t.is_known());
    assert_eq!(t.known_value(), Some(42));
    assert_eq!(t.min_value(), 42);
    assert_eq!(t.max_value(), 42);
}

#[test]
fn tnum_unknown_range() {
    let t = Tnum::unknown();
    assert!(!t.is_known());
    assert_eq!(t.min_value(), 0);
    assert_eq!(t.max_value(), u64::MAX);
}

#[test]
fn tnum_add_constants() {
    let a = Tnum::constant(10);
    let b = Tnum::constant(20);
    let c = a.add(b);
    assert_eq!(c.known_value(), Some(30));
}

#[test]
fn tnum_and_constants() {
    let a = Tnum::constant(0xFF);
    let b = Tnum::constant(0x0F);
    let c = a.and(b);
    assert_eq!(c.known_value(), Some(0x0F));
}

#[test]
fn tnum_trunc32() {
    let t = Tnum::constant(0x1_0000_0042);
    let t32 = t.trunc32();
    assert_eq!(t32.known_value(), Some(0x42));
}

#[test]
fn stack_bounds_check() {
    assert!(StackState::check_bounds(-8, 8));
    assert!(StackState::check_bounds(-512, 8));
    assert!(!StackState::check_bounds(-513, 8));
    assert!(!StackState::check_bounds(0, 1));
    assert!(StackState::check_bounds(-1, 1));
}

#[test]
fn stack_init_tracking() {
    let mut stack = StackState::new();
    assert!(!stack.check_readable(-8, 8));
    stack.mark_written(-8, 8);
    assert!(stack.check_readable(-8, 8));
    assert!(!stack.check_readable(-16, 8));
}

#[test]
fn verifier_state_entry() {
    let state = VerifierState::entry();
    assert_eq!(state.get(Reg::R1).reg_type, RegType::CtxPtr { offset: 0 });
    assert_eq!(
        state.get(Reg::R10).reg_type,
        RegType::FramePtr { offset: 0 }
    );
    assert_eq!(state.get(Reg::R0).reg_type, RegType::Uninit);
    assert_eq!(state.get(Reg::R6).reg_type, RegType::Uninit);
}

#[test]
fn scalar_refine_bounds() {
    let mut r = RegState::scalar_unknown();
    r.umin = 5;
    r.umax = 10;
    r.refine_bounds();
    assert_eq!(r.smin, 5);
    assert_eq!(r.smax, 10);
}

#[test]
fn scalar_known_collapses_tnum() {
    let mut r = RegState::scalar_unknown();
    r.umin = 42;
    r.umax = 42;
    r.refine_bounds();
    assert_eq!(r.tnum.known_value(), Some(42));
}

#[test]
fn widen_same_scalar_widens_bounds() {
    let a = RegState::scalar_value(3);
    let b = RegState::scalar_value(7);
    let w = a.widen(&b);
    assert_eq!(w.reg_type, RegType::Scalar);
    assert_eq!(w.umin, 3);
    assert_eq!(w.umax, 7);
}

#[test]
fn widen_different_types_becomes_scalar() {
    let a = RegState::scalar_value(0);
    let b = RegState::ctx_ptr(0);
    let w = a.widen(&b);
    assert_eq!(w.reg_type, RegType::Scalar);
}

#[test]
fn widen_uninit_stays_uninit() {
    let a = RegState::uninit();
    let b = RegState::scalar_value(5);
    let w = a.widen(&b);
    assert_eq!(w.reg_type, RegType::Uninit);
}

#[test]
fn substate_known_within_wider_range() {
    let narrow = RegState::scalar_value(5);
    let mut wide = RegState::scalar_unknown();
    wide.umin = 0;
    wide.umax = 10;
    wide.smin = 0;
    wide.smax = 10;
    wide.tnum = Tnum::unknown();
    assert!(narrow.is_substate_of(&wide));
    assert!(!wide.is_substate_of(&narrow));
}

#[test]
fn substate_same_is_substate() {
    let a = RegState::scalar_value(42);
    assert!(a.is_substate_of(&a));
}

#[test]
fn widen_verifier_state() {
    let mut s1 = VerifierState::entry();
    let mut s2 = VerifierState::entry();
    s1.set(Reg::R0, RegState::scalar_value(0));
    s2.set(Reg::R0, RegState::scalar_value(4));
    let w = s1.widen(&s2);
    assert_eq!(w.get(Reg::R0).reg_type, RegType::Scalar);
    assert_eq!(w.get(Reg::R0).umin, 0);
    assert_eq!(w.get(Reg::R0).umax, 4);
}

#[test]
fn stack_widen_intersection() {
    let mut s1 = StackState::new();
    let mut s2 = StackState::new();
    s1.mark_written(-8, 8);
    s1.mark_written(-16, 8);
    s2.mark_written(-8, 8);
    // Only -8 is written in both.
    let w = s1.widen(&s2);
    assert!(w.check_readable(-8, 8));
    assert!(!w.check_readable(-16, 8));
}
