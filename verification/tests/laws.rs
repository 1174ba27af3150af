use bpf_verifier::kverify::state::{RegState, RegType, StackState, Tnum};

/// Whether the tnum stands for `x`.
fn tnum_has(t: Tnum, x: u64) -> bool {
    x & !t.mask == t.value
}

/// Whether the scalar state stands for `x`.
fn reg_has(r: &RegState, x: u64) -> bool {
    matches!(r.reg_type, RegType::Scalar)
        && tnum_has(r.tnum, x)
        && r.umin <= x
        && x <= r.umax
        && r.smin <= x as i64
        && x as i64 <= r.smax
}

/// A tnum with bits 0 and 1 unknown and bit 2 set: {4, 5, 6, 7}.
fn four_to_seven() -> Tnum {
    Tnum { value: 0b100, mask: 0b011 }
}

#[test]
fn tnum_ops_keep_every_value() {
    let a = four_to_seven();
    let b = Tnum { value: 0b1000, mask: 0b0001 };
    for x in 4u64..8 {
        for y in [8u64, 9] {
            assert!(tnum_has(a, x) && tnum_has(b, y));
            assert!(tnum_has(a.and(b), x & y));
            assert!(tnum_has(a.or(b), x | y));
            assert!(tnum_has(a.xor(b), x ^ y));
            assert!(tnum_has(a.add(b), x.wrapping_add(y)));
            assert!(tnum_has(a.sub(b), x.wrapping_sub(y)));
        }
        assert!(tnum_has(a.lsh(3), x << 3));
        assert!(tnum_has(a.rsh(1), x >> 1));
        assert!(tnum_has(a.sub(Tnum::constant(2)), x.wrapping_sub(2)));
        assert!(tnum_has(a.trunc32(), x & 0xFFFF_FFFF));
    }
    assert!(!tnum_has(a, 3));
    assert!(!tnum_has(a, 8));
}

#[test]
fn tnum_sub_with_unknown_subtrahend_keeps_wrapped_values() {
    let zero = Tnum::constant(0);
    let zero_or_one = Tnum { value: 0, mask: 1 };
    let d = zero.sub(zero_or_one);
    assert!(tnum_has(d, 0));
    assert!(tnum_has(d, u64::MAX));
    assert_eq!(d, Tnum { value: 0, mask: u64::MAX });
    assert_eq!(Tnum::constant(9).sub(Tnum::constant(4)), Tnum::constant(5));
}

#[test]
fn tnum_range_bounds_its_values() {
    let a = four_to_seven();
    assert_eq!(a.min_value(), 4);
    assert_eq!(a.max_value(), 7);
}

#[test]
fn widened_scalar_keeps_both_values() {
    let a = RegState::scalar_value(5);
    let b = RegState::scalar_value(9);
    let w = a.widen(&b);
    assert!(reg_has(&w, 5));
    assert!(reg_has(&w, 9));
}

#[test]
fn substate_is_reflexive_and_sound() {
    let a = RegState::scalar_value(5);
    assert!(a.is_substate_of(&a));
    let wide = RegState::scalar_unknown();
    assert!(a.is_substate_of(&wide));
    assert!(reg_has(&wide, 5));
}

#[test]
fn refined_bounds_keep_the_value() {
    let mut r = RegState::scalar_unknown();
    r.umin = 4;
    r.umax = 7;
    r.refine_bounds();
    for x in 4u64..8 {
        assert!(reg_has(&r, x));
    }
}

#[test]
fn written_stack_bytes_read_back() {
    let mut stack = StackState::new();
    stack.mark_written(-16, 4);
    assert!(stack.check_readable(-16, 4));
    assert!(stack.check_readable(-14, 2));
    assert!(!stack.check_readable(-16, 8));
    stack.mark_written(-32, 8);
    assert!(stack.check_readable(-16, 4));
    assert!(stack.check_readable(-32, 8));
}

#[test]
fn widened_stack_reads_only_what_both_wrote() {
    let mut a = StackState::new();
    a.mark_written(-8, 8);
    a.mark_written(-16, 8);
    let mut b = StackState::new();
    b.mark_written(-8, 8);
    let w = a.widen(&b);
    assert!(w.check_readable(-8, 8));
    assert!(!w.check_readable(-16, 8));
    assert!(a.is_substate_of(&w));
    assert!(b.is_substate_of(&w));
}
