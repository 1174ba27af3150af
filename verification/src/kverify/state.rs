//! Abstract register and stack state of the kernel-style verifier:
//! tracked numbers, register types with scalar bounds, and the per-byte
//! initialisation state of the 512-byte stack frame.

use vstd::prelude::*;

use crate::bpf::instruction::Reg;
use crate::text::{dec_int, dec_nat, push_char, push_dec_i64, push_dec_u64, push_str};

verus! {

/// Wrapping 64-bit addition.
pub fn wrapping_add_u64(x: u64, y: u64) -> (r: u64)
    ensures
        r == (x + y) as u64,
{
    let r = x.wrapping_add(y);
    assert(r == (x + y) as u64) by (bit_vector)
        requires r == (if x + y > 0xffff_ffff_ffff_ffffu64 { (x + y - 0x1_0000_0000_0000_0000int) as u64 } else { (x + y) as u64 });
    r
}

/// Wrapping 64-bit subtraction.
pub fn wrapping_sub_u64(x: u64, y: u64) -> (r: u64)
    ensures
        r == (x - y) as u64,
{
    let r = x.wrapping_sub(y);
    assert(r == (x - y) as u64) by (bit_vector)
        requires r == (if x - y < 0 { (x - y + 0x1_0000_0000_0000_0000int) as u64 } else { (x - y) as u64 });
    r
}

/// Tracks the known bits of a scalar (the kernel's "tnum").
///
/// `value` holds bits known to be 1; `mask` holds bits that are unknown.
/// A well-formed tnum has `value & mask == 0`.
#[derive(Debug, Clone, Copy, PartialEq, Eq, Structural)]
pub struct Tnum {
    pub value: u64,
    pub mask: u64,
}

impl Tnum {
    /// Known bits are not also unknown.
    pub open spec fn wf(self) -> bool {
        self.value & self.mask == 0
    }

    /// `x` is one of the values this tnum stands for: it agrees with
    /// `value` on every known bit.
    pub open spec fn contains(self, x: u64) -> bool {
        x & !self.mask == self.value
    }

    pub open spec fn and_t(self, other: Tnum) -> Tnum {
        let alpha = self.value | self.mask;
        let beta = other.value | other.mask;
        let v = self.value & other.value;
        Tnum { value: v, mask: alpha & beta & !v }
    }

    pub open spec fn or_t(self, other: Tnum) -> Tnum {
        let v = self.value | other.value;
        Tnum { value: v, mask: (self.mask | other.mask) & !v }
    }

    pub open spec fn xor_t(self, other: Tnum) -> Tnum {
        let v = self.value ^ other.value;
        let mu = self.mask | other.mask;
        Tnum { value: v & !mu, mask: mu }
    }

    pub open spec fn lsh_t(self, shift: u32) -> Tnum {
        if shift >= 64 {
            Tnum { value: 0, mask: 0 }
        } else {
            Tnum { value: self.value << shift, mask: self.mask << shift }
        }
    }

    pub open spec fn rsh_t(self, shift: u32) -> Tnum {
        if shift >= 64 {
            Tnum { value: 0, mask: 0 }
        } else {
            Tnum { value: self.value >> shift, mask: self.mask >> shift }
        }
    }

    pub open spec fn add_t(self, other: Tnum) -> Tnum {
        let sv = (self.value + other.value) as u64;
        let sm = (self.mask + other.mask) as u64;
        let sigma = (sv + sm) as u64;
        let chi = sigma ^ sv;
        let mu = chi | self.mask | other.mask;
        Tnum { value: sv & !mu, mask: mu }
    }

    pub open spec fn sub_t(self, other: Tnum) -> Tnum {
        let dv = (self.value - other.value) as u64;
        let alpha = (dv + self.mask) as u64;
        let beta = (dv - other.mask) as u64;
        let mu = (alpha ^ beta) | self.mask | other.mask;
        Tnum { value: dv & !mu, mask: mu }
    }

    pub open spec fn trunc32_t(self) -> Tnum {
        Tnum { value: self.value & 0xFFFF_FFFF, mask: self.mask & 0xFFFF_FFFF }
    }

    /// A fully known constant.
    pub fn constant(v: u64) -> (t: Tnum)
        ensures
            t == (Tnum { value: v, mask: 0 }),
    {
        Tnum { value: v, mask: 0 }
    }

    /// Completely unknown 64-bit value.
    pub fn unknown() -> (t: Tnum)
        ensures
            t == (Tnum { value: 0, mask: u64::MAX }),
    {
        Tnum { value: 0, mask: u64::MAX }
    }

    /// Whether this tnum represents a single known value.
    pub fn is_known(&self) -> (b: bool)
        ensures
            b == (self.mask == 0),
    {
        self.mask == 0
    }

    /// If fully known, the concrete value.
    pub fn known_value(&self) -> (r: Option<u64>)
        ensures
            r == (if self.mask == 0 { Some(self.value) } else { None::<u64> }),
    {
        if self.is_known() {
            Some(self.value)
        } else {
            None
        }
    }

    /// AND of two tnums (kernel formulation).
    pub fn and(self, other: Tnum) -> (t: Tnum)
        ensures
            t == self.and_t(other),
    {
        let alpha = self.value | self.mask;
        let beta = other.value | other.mask;
        let v = self.value & other.value;
        let mu = alpha & beta & !v;
        Tnum { value: v, mask: mu }
    }

    /// OR of two tnums.
    pub fn or(self, other: Tnum) -> (t: Tnum)
        ensures
            t == self.or_t(other),
    {
        let v = self.value | other.value;
        let mu = (self.mask | other.mask) & !v;
        Tnum { value: v, mask: mu }
    }

    /// XOR of two tnums.
    pub fn xor(self, other: Tnum) -> (t: Tnum)
        ensures
            t == self.xor_t(other),
    {
        let v = self.value ^ other.value;
        let mu = self.mask | other.mask;
        Tnum { value: v & !mu, mask: mu }
    }

    /// Left shift by a known amount. Shifts >= 64 produce zero.
    pub fn lsh(self, shift: u32) -> (t: Tnum)
        ensures
            t == self.lsh_t(shift),
    {
        if shift >= 64 {
            return Tnum::constant(0);
        }
        Tnum { value: self.value << shift, mask: self.mask << shift }
    }

    /// Logical right shift by a known amount. Shifts >= 64 produce zero.
    pub fn rsh(self, shift: u32) -> (t: Tnum)
        ensures
            t == self.rsh_t(shift),
    {
        if shift >= 64 {
            return Tnum::constant(0);
        }
        Tnum { value: self.value >> shift, mask: self.mask >> shift }
    }

    /// SUB of two tnums: self - other (kernel formulation: the borrows of
    /// the lowest and the highest difference mark the unknown bits).
    pub fn sub(self, other: Tnum) -> (t: Tnum)
        ensures
            t == self.sub_t(other),
    {
        let dv = wrapping_sub_u64(self.value, other.value);
        let alpha = wrapping_add_u64(dv, self.mask);
        let beta = wrapping_sub_u64(dv, other.mask);
        let chi = alpha ^ beta;
        let mu = chi | self.mask | other.mask;
        Tnum { value: dv & !mu, mask: mu }
    }

    /// ADD of two tnums (kernel formulation).
    pub fn add(self, other: Tnum) -> (t: Tnum)
        ensures
            t == self.add_t(other),
    {
        let sv = wrapping_add_u64(self.value, other.value);
        let sm = wrapping_add_u64(self.mask, other.mask);
        let sigma = wrapping_add_u64(sv, sm);
        let chi = sigma ^ sv;
        let mu = chi | self.mask | other.mask;
        Tnum { value: sv & !mu, mask: mu }
    }

    /// Truncate to 32 bits (upper 32 bits become known-zero).
    pub fn trunc32(self) -> (t: Tnum)
        ensures
            t == self.trunc32_t(),
    {
        Tnum { value: self.value & 0xFFFF_FFFF, mask: self.mask & 0xFFFF_FFFF }
    }

    /// Smallest value the tnum can stand for.
    pub fn min_value(self) -> (v: u64)
        ensures
            v == self.value,
    {
        self.value
    }

    /// Largest value the tnum can stand for.
    pub fn max_value(self) -> (v: u64)
        ensures
            v == self.value | self.mask,
    {
        self.value | self.mask
    }
}

/// A constant stands for exactly its value; the unknown tnum stands for
/// every value.
pub proof fn lemma_tnum_constant_unknown(v: u64, x: u64)
    ensures
        (Tnum { value: v, mask: 0 }).wf(),
        (Tnum { value: v, mask: 0 }).contains(x) <==> x == v,
        (Tnum { value: 0, mask: u64::MAX }).wf(),
        (Tnum { value: 0, mask: u64::MAX }).contains(x),
{
    assert((v & 0 == 0) && (x & !0u64 == v <==> x == v)) by (bit_vector);
    assert((0u64 & 0xffff_ffff_ffff_ffffu64 == 0) && (x & !0xffff_ffff_ffff_ffffu64 == 0)) by (bit_vector);
}

/// Every value a tnum stands for lies between `min_value` and `max_value`.
pub proof fn lemma_tnum_range(t: Tnum, x: u64)
    requires
        t.contains(x),
    ensures
        t.value <= x <= t.value | t.mask,
{
    let v = t.value;
    let m = t.mask;
    assert(x & !m == v ==> v <= x && x <= (v | m)) by (bit_vector);
}

/// AND is sound: if `a` stands for `x` and `b` for `y`, `a.and(b)` stands
/// for `x & y`, and the result is well formed.
pub proof fn lemma_tnum_and_sound(a: Tnum, b: Tnum, x: u64, y: u64)
    requires
        a.wf(),
        b.wf(),
        a.contains(x),
        b.contains(y),
    ensures
        a.and_t(b).wf(),
        a.and_t(b).contains(x & y),
{
    let (av, am, bv, bm) = (a.value, a.mask, b.value, b.mask);
    assert((av & bv) & ((av | am) & (bv | bm) & !(av & bv)) == 0
        && (x & y) & !((av | am) & (bv | bm) & !(av & bv)) == av & bv) by (bit_vector)
        requires av & am == 0, bv & bm == 0, x & !am == av, y & !bm == bv;
}

/// OR is sound.
pub proof fn lemma_tnum_or_sound(a: Tnum, b: Tnum, x: u64, y: u64)
    requires
        a.wf(),
        b.wf(),
        a.contains(x),
        b.contains(y),
    ensures
        a.or_t(b).wf(),
        a.or_t(b).contains(x | y),
{
    let (av, am, bv, bm) = (a.value, a.mask, b.value, b.mask);
    assert((av | bv) & ((am | bm) & !(av | bv)) == 0
        && (x | y) & !((am | bm) & !(av | bv)) == av | bv) by (bit_vector)
        requires av & am == 0, bv & bm == 0, x & !am == av, y & !bm == bv;
}

/// XOR is sound.
pub proof fn lemma_tnum_xor_sound(a: Tnum, b: Tnum, x: u64, y: u64)
    requires
        a.wf(),
        b.wf(),
        a.contains(x),
        b.contains(y),
    ensures
        a.xor_t(b).wf(),
        a.xor_t(b).contains(x ^ y),
{
    let (av, am, bv, bm) = (a.value, a.mask, b.value, b.mask);
    assert(((av ^ bv) & !(am | bm)) & (am | bm) == 0
        && (x ^ y) & !(am | bm) == (av ^ bv) & !(am | bm)) by (bit_vector)
        requires av & am == 0, bv & bm == 0, x & !am == av, y & !bm == bv;
}

/// Shifts are sound for shift amounts below 64.
pub proof fn lemma_tnum_shift_sound(a: Tnum, x: u64, s: u32)
    requires
        a.wf(),
        a.contains(x),
        s < 64,
    ensures
        a.lsh_t(s).wf(),
        a.lsh_t(s).contains(x << s),
        a.rsh_t(s).wf(),
        a.rsh_t(s).contains(x >> s),
{
    let (av, am) = (a.value, a.mask);
    assert((av << s) & (am << s) == 0 && (x << s) & !(am << s) == av << s
        && (av >> s) & (am >> s) == 0 && (x >> s) & !(am >> s) == av >> s) by (bit_vector)
        requires av & am == 0, x & !am == av, s < 64;
}

proof fn lemma_add_bits(av: u64, am: u64, bv: u64, bm: u64, x: u64, y: u64)
    requires
        av & am == 0,
        bv & bm == 0,
        x & !am == av,
        y & !bm == bv,
    ensures
        ({
            let sv = (av + bv) as u64;
            let sm = (am + bm) as u64;
            let mu = (((sv + sm) as u64) ^ sv) | am | bm;
            &&& ((x + y) as u64) & !mu == sv & !mu
            &&& (sv & !mu) & mu == 0
        }),
{
    assert(({
            let sv = (av + bv) as u64;
            let sm = (am + bm) as u64;
            let mu = (((sv + sm) as u64) ^ sv) | am | bm;
            &&& ((x + y) as u64) & !mu == sv & !mu
            &&& (sv & !mu) & mu == 0
        })) by (bit_vector)
        requires
            av & am == 0,
            bv & bm == 0,
            x & !am == av,
            y & !bm == bv;
}

/// ADD is sound (wrapping 64-bit addition).
pub proof fn lemma_tnum_add_sound(a: Tnum, b: Tnum, x: u64, y: u64)
    requires
        a.wf(),
        b.wf(),
        a.contains(x),
        b.contains(y),
    ensures
        a.add_t(b).wf(),
        a.add_t(b).contains((x + y) as u64),
{
    lemma_add_bits(a.value, a.mask, b.value, b.mask, x, y);
}

proof fn lemma_sub_bits(av: u64, am: u64, bv: u64, bm: u64, x: u64, y: u64)
    requires
        av & am == 0,
        bv & bm == 0,
        x & !am == av,
        y & !bm == bv,
    ensures
        ({
            let dv = (av - bv) as u64;
            let mu = (((dv + am) as u64) ^ ((dv - bm) as u64)) | am | bm;
            &&& ((x - y) as u64) & !mu == dv & !mu
            &&& (dv & !mu) & mu == 0
        }),
{
    assert(({
            let dv = (av - bv) as u64;
            let mu = (((dv + am) as u64) ^ ((dv - bm) as u64)) | am | bm;
            &&& ((x - y) as u64) & !mu == dv & !mu
            &&& (dv & !mu) & mu == 0
        })) by (bit_vector)
        requires
            av & am == 0,
            bv & bm == 0,
            x & !am == av,
            y & !bm == bv;
}

/// SUB is sound (wrapping 64-bit subtraction).
pub proof fn lemma_tnum_sub_sound(a: Tnum, b: Tnum, x: u64, y: u64)
    requires
        a.wf(),
        b.wf(),
        a.contains(x),
        b.contains(y),
    ensures
        a.sub_t(b).wf(),
        a.sub_t(b).contains((x - y) as u64),
{
    lemma_sub_bits(a.value, a.mask, b.value, b.mask, x, y);
}

/// Truncation to 32 bits is sound.
pub proof fn lemma_tnum_trunc32_sound(a: Tnum, x: u64)
    requires
        a.wf(),
        a.contains(x),
    ensures
        a.trunc32_t().wf(),
        a.trunc32_t().contains(x & 0xFFFF_FFFF),
{
    let (av, am) = (a.value, a.mask);
    assert((av & 0xFFFF_FFFF) & (am & 0xFFFF_FFFF) == 0
        && (x & 0xFFFF_FFFF) & !(am & 0xFFFF_FFFF) == av & 0xFFFF_FFFF) by (bit_vector)
        requires av & am == 0, x & !am == av;
}


/// The type of value held in a register.
#[allow(inconsistent_fields)]
#[derive(Debug, PartialEq, Eq)]
pub enum RegType {
    /// Not yet written -- reading is an error.
    Uninit,
    /// A scalar value (not a pointer). Tracked via tnum + range bounds.
    Scalar,
    /// Pointer to the 512-byte stack frame; `offset` is the known constant
    /// offset from r10.
    FramePtr { offset: i64 },
    /// Pointer to a map value returned by map_lookup_elem. `id` tells
    /// different lookups apart; `size` is the value size; `origin_pc` is the
    /// helper call that created it.
    MapValuePtr { id: usize, offset: i64, size: u32, origin_pc: usize },
    /// Pointer to the programme context (r1 at entry).
    CtxPtr { offset: i64 },
    /// Pointer to a ring buffer reservation.
    RingBufPtr { id: usize, offset: i64, size: u32, origin_pc: usize },
    /// Pointer into kernel memory (loaded from ctx or via CO-RE access).
    KernelPtr,
    /// Pointer to a global data section, patched in by the loader.
    DataPtr { name: String },
    /// Pointer that might be null (before a null check). `origin_pc` is
    /// the helper call that produced it; `id` identifies the allocation so
    /// that every register holding it is refined together.
    PtrOrNull { inner: Box<RegType>, origin_pc: Option<usize>, id: usize },
    /// Known null value (after a null check on the null branch).
    Null,
}

/// Equality of register types, comparing data section names by their text.
pub open spec fn same_type(a: RegType, b: RegType) -> bool
    decreases a,
{
    match (a, b) {
        (RegType::DataPtr { name: n1 }, RegType::DataPtr { name: n2 }) => n1@ == n2@,
        (RegType::PtrOrNull { inner: i1, origin_pc: o1, id: d1 },
         RegType::PtrOrNull { inner: i2, origin_pc: o2, id: d2 }) => same_type(*i1, *i2) && o1 == o2 && d1 == d2,
        _ => a == b,
    }
}

/// Whether two register states are equal: types by `same_type`, the
/// tnums and bounds exactly.
pub open spec fn same_reg(a: RegState, b: RegState) -> bool {
    same_type(a.reg_type, b.reg_type) && a.tnum == b.tnum && a.smin == b.smin && a.smax == b.smax
        && a.umin == b.umin && a.umax == b.umax
}

/// `same_type` is an equivalence.
pub proof fn lemma_same_type_equiv(a: RegType, b: RegType, c: RegType)
    ensures
        same_type(a, a),
        same_type(a, b) ==> same_type(b, a),
        same_type(a, b) && same_type(b, c) ==> same_type(a, c),
    decreases a,
{
    match (a, b, c) {
        (RegType::PtrOrNull { inner: i1, .. }, RegType::PtrOrNull { inner: i2, .. }, RegType::PtrOrNull { inner: i3, .. }) => {
            lemma_same_type_equiv(*i1, *i2, *i3);
        }
        (RegType::PtrOrNull { inner: i1, .. }, RegType::PtrOrNull { inner: i2, .. }, _) => {
            lemma_same_type_equiv(*i1, *i2, *i2);
        }
        (RegType::PtrOrNull { inner: i1, .. }, _, _) => {
            lemma_same_type_equiv(*i1, *i1, *i1);
        }
        _ => {}
    }
}

/// Text of a signed offset with an explicit sign (`+8`, `-8`, `+0`).
pub open spec fn signed_text(v: int) -> Seq<char> {
    if v < 0 { dec_int(v) } else { seq!['+'] + dec_nat(v as nat) }
}

/// Appends a signed offset with an explicit sign (see `signed_text`).
pub fn push_signed(s: &mut String, v: i64)
    ensures
        final(s)@ == old(s)@ + signed_text(v as int),
{
    if v >= 0 {
        push_char(s, '+');
        push_dec_u64(s, v as u64);
        assert(final(s)@ =~= old(s)@ + signed_text(v as int));
    } else {
        push_dec_i64(s, v);
    }
}

impl RegType {
    pub open spec fn is_pointer(self) -> bool {
        ||| self is FramePtr
        ||| self is MapValuePtr
        ||| self is CtxPtr
        ||| self is RingBufPtr
        ||| self is KernelPtr
        ||| self is DataPtr
    }

    /// Whether this type is some kind of valid pointer (not null, not
    /// scalar, not uninit, not possibly null).
    pub fn is_ptr(&self) -> (b: bool)
        ensures
            b == self.is_pointer(),
    {
        match self {
            RegType::FramePtr { .. } | RegType::MapValuePtr { .. } | RegType::CtxPtr { .. }
            | RegType::RingBufPtr { .. } | RegType::KernelPtr | RegType::DataPtr { .. } => true,
            _ => false,
        }
    }

    pub open spec fn name_text(self) -> Seq<char> {
        match self {
            RegType::Uninit => "uninit"@,
            RegType::Scalar => "scalar"@,
            RegType::FramePtr { .. } => "frame_ptr"@,
            RegType::MapValuePtr { .. } => "map_value_ptr"@,
            RegType::CtxPtr { .. } => "ctx_ptr"@,
            RegType::RingBufPtr { .. } => "ringbuf_ptr"@,
            RegType::KernelPtr => "kernel_ptr"@,
            RegType::DataPtr { .. } => "data_ptr"@,
            RegType::PtrOrNull { .. } => "ptr_or_null"@,
            RegType::Null => "null"@,
        }
    }

    /// The name of the kind of value this register type holds.
    pub fn kind_name(&self) -> (s: &'static str)
        ensures
            s@ == self.name_text(),
    {
        match self {
            RegType::Uninit => "uninit",
            RegType::Scalar => "scalar",
            RegType::FramePtr { .. } => "frame_ptr",
            RegType::MapValuePtr { .. } => "map_value_ptr",
            RegType::CtxPtr { .. } => "ctx_ptr",
            RegType::RingBufPtr { .. } => "ringbuf_ptr",
            RegType::KernelPtr => "kernel_ptr",
            RegType::DataPtr { .. } => "data_ptr",
            RegType::PtrOrNull { .. } => "ptr_or_null",
            RegType::Null => "null",
        }
    }

    /// Human-readable description, e.g. `fp-8`, `ctx+0`,
    /// `map_value(id=0, off=4, size=8)`, `map_value(...)_or_null`.
    pub open spec fn display(self) -> Seq<char>
        decreases self,
    {
        match self {
            RegType::Uninit => "uninit"@,
            RegType::Scalar => "scalar"@,
            RegType::FramePtr { offset } => "fp"@ + signed_text(offset as int),
            RegType::MapValuePtr { id, offset, size, .. } => "map_value(id="@ + dec_nat(id as nat) + ", off="@
                + dec_int(offset as int) + ", size="@ + dec_nat(size as nat) + ")"@,
            RegType::CtxPtr { offset } => "ctx"@ + signed_text(offset as int),
            RegType::RingBufPtr { id, offset, size, .. } => "ringbuf(id="@ + dec_nat(id as nat) + ", off="@
                + dec_int(offset as int) + ", size="@ + dec_nat(size as nat) + ")"@,
            RegType::KernelPtr => "kernel_ptr"@,
            RegType::DataPtr { name } => "data_ptr("@ + name@ + ")"@,
            RegType::PtrOrNull { inner, .. } => inner.display() + "_or_null"@,
            RegType::Null => "null"@,
        }
    }

    fn push_id_off_size(s: &mut String, id: usize, offset: i64, size: u32)
        ensures
            final(s)@ == old(s)@ + dec_nat(id as nat) + ", off="@ + dec_int(offset as int) + ", size="@
                + dec_nat(size as nat) + ")"@,
    {
        push_dec_u64(s, id as u64);
        push_str(s, ", off=");
        push_dec_i64(s, offset);
        push_str(s, ", size=");
        push_dec_u64(s, size as u64);
        push_str(s, ")");
        assert(final(s)@ =~= old(s)@ + dec_nat(id as nat) + ", off="@ + dec_int(offset as int) + ", size="@
            + dec_nat(size as nat) + ")"@);
    }

    /// Appends the description (`display`) to `s`.
    pub fn push_display(&self, s: &mut String)
        ensures
            final(s)@ == old(s)@ + self.display(),
        decreases self,
    {
        match self {
            RegType::Uninit => push_str(s, "uninit"),
            RegType::Scalar => push_str(s, "scalar"),
            RegType::FramePtr { offset } => {
                push_str(s, "fp");
                push_signed(s, *offset);
            }
            RegType::MapValuePtr { id, offset, size, .. } => {
                push_str(s, "map_value(id=");
                RegType::push_id_off_size(s, *id, *offset, *size);
            }
            RegType::CtxPtr { offset } => {
                push_str(s, "ctx");
                push_signed(s, *offset);
            }
            RegType::RingBufPtr { id, offset, size, .. } => {
                push_str(s, "ringbuf(id=");
                RegType::push_id_off_size(s, *id, *offset, *size);
            }
            RegType::KernelPtr => push_str(s, "kernel_ptr"),
            RegType::DataPtr { name } => {
                push_str(s, "data_ptr(");
                push_str(s, name.as_str());
                push_str(s, ")");
            }
            RegType::PtrOrNull { inner, .. } => {
                inner.push_display(s);
                push_str(s, "_or_null");
            }
            RegType::Null => push_str(s, "null"),
        }
    }

    /// The description (`display`) as a string.
    pub fn to_text(&self) -> (t: String)
        ensures
            t@ == self.display(),
    {
        let mut s = String::new();
        self.push_display(&mut s);
        s
    }

    /// A copy of this type.
    pub fn dup(&self) -> (r: RegType)
        ensures
            r == *self,
        decreases self,
    {
        match self {
            RegType::Uninit => RegType::Uninit,
            RegType::Scalar => RegType::Scalar,
            RegType::FramePtr { offset } => RegType::FramePtr { offset: *offset },
            RegType::MapValuePtr { id, offset, size, origin_pc } =>
                RegType::MapValuePtr { id: *id, offset: *offset, size: *size, origin_pc: *origin_pc },
            RegType::CtxPtr { offset } => RegType::CtxPtr { offset: *offset },
            RegType::RingBufPtr { id, offset, size, origin_pc } =>
                RegType::RingBufPtr { id: *id, offset: *offset, size: *size, origin_pc: *origin_pc },
            RegType::KernelPtr => RegType::KernelPtr,
            RegType::DataPtr { name } => RegType::DataPtr { name: name.clone() },
            RegType::PtrOrNull { inner, origin_pc, id } =>
                RegType::PtrOrNull { inner: Box::new((**inner).dup()), origin_pc: *origin_pc, id: *id },
            RegType::Null => RegType::Null,
        }
    }

    /// Whether two types are the same (`same_type`).
    pub fn same(&self, other: &RegType) -> (b: bool)
        ensures
            b == same_type(*self, *other),
        decreases self,
    {
        match (self, other) {
            (RegType::Uninit, RegType::Uninit) => true,
            (RegType::Scalar, RegType::Scalar) => true,
            (RegType::FramePtr { offset: a }, RegType::FramePtr { offset: b }) => *a == *b,
            (RegType::MapValuePtr { id: i1, offset: o1, size: s1, origin_pc: p1 },
             RegType::MapValuePtr { id: i2, offset: o2, size: s2, origin_pc: p2 }) =>
                *i1 == *i2 && *o1 == *o2 && *s1 == *s2 && *p1 == *p2,
            (RegType::CtxPtr { offset: a }, RegType::CtxPtr { offset: b }) => *a == *b,
            (RegType::RingBufPtr { id: i1, offset: o1, size: s1, origin_pc: p1 },
             RegType::RingBufPtr { id: i2, offset: o2, size: s2, origin_pc: p2 }) =>
                *i1 == *i2 && *o1 == *o2 && *s1 == *s2 && *p1 == *p2,
            (RegType::KernelPtr, RegType::KernelPtr) => true,
            (RegType::DataPtr { name: n1 }, RegType::DataPtr { name: n2 }) => *n1 == *n2,
            (RegType::PtrOrNull { inner: i1, origin_pc: p1, id: d1 },
             RegType::PtrOrNull { inner: i2, origin_pc: p2, id: d2 }) => {
                let same_pc = match (p1, p2) {
                    (Some(a), Some(b)) => *a == *b,
                    (None, None) => true,
                    _ => false,
                };
                same_pc && *d1 == *d2 && (**i1).same(&**i2)
            }
            (RegType::Null, RegType::Null) => true,
            _ => false,
        }
    }

    pub fn is_uninit(&self) -> (b: bool)
        ensures
            b == (*self is Uninit),
    {
        matches!(self, RegType::Uninit)
    }

    pub fn is_scalar(&self) -> (b: bool)
        ensures
            b == (*self is Scalar),
    {
        matches!(self, RegType::Scalar)
    }

    pub fn is_null(&self) -> (b: bool)
        ensures
            b == (*self is Null),
    {
        matches!(self, RegType::Null)
    }
}

/// Full state of a single register: type + scalar bounds.
#[derive(Debug, PartialEq, Eq)]
pub struct RegState {
    pub reg_type: RegType,
    /// Tracked number for scalar range analysis.
    pub tnum: Tnum,
    /// Signed bounds.
    pub smin: i64,
    pub smax: i64,
    /// Unsigned bounds.
    pub umin: u64,
    pub umax: u64,
}

/// The state with the given type and no knowledge of the value.
pub open spec fn unbounded(t: RegType) -> RegState {
    RegState {
        reg_type: t,
        tnum: Tnum { value: 0, mask: u64::MAX },
        smin: i64::MIN,
        smax: i64::MAX,
        umin: 0,
        umax: u64::MAX,
    }
}

/// The scalar holding exactly `v`.
pub open spec fn known_scalar(v: u64) -> RegState {
    RegState {
        reg_type: RegType::Scalar,
        tnum: Tnum { value: v, mask: 0 },
        smin: v as i64,
        smax: v as i64,
        umin: v,
        umax: v,
    }
}

/// The known null value.
pub open spec fn null_state() -> RegState {
    RegState {
        reg_type: RegType::Null,
        tnum: Tnum { value: 0, mask: 0 },
        smin: 0,
        smax: 0,
        umin: 0,
        umax: 0,
    }
}

pub open spec fn max_u(a: u64, b: u64) -> u64 { if a >= b { a } else { b } }
pub open spec fn min_u(a: u64, b: u64) -> u64 { if a <= b { a } else { b } }
pub open spec fn max_i(a: i64, b: i64) -> i64 { if a >= b { a } else { b } }
pub open spec fn min_i(a: i64, b: i64) -> i64 { if a <= b { a } else { b } }

impl RegState {
    /// `x` is a value this (scalar) state stands for: the tnum admits it
    /// and it lies within both the unsigned and the signed bounds.
    pub open spec fn contains(self, x: u64) -> bool {
        &&& self.tnum.contains(x)
        &&& self.umin <= x <= self.umax
        &&& self.smin <= x as i64 <= self.smax
    }

    /// Bounds after tightening each from the others (five steps: unsigned
    /// from tnum; tnum from a collapsed unsigned range; signed from
    /// non-negative unsigned; unsigned from non-negative signed; final
    /// collapse).
    pub open spec fn refined(self) -> RegState {
        let t = self.tnum;
        let umin1 = max_u(self.umin, t.value);
        let umax1 = max_u(0, min_u(self.umax, t.value | t.mask));
        let t2 = if umin1 == umax1 { Tnum { value: umin1, mask: 0 } } else { t };
        let nonneg_u = umin1 <= i64::MAX as u64 && umax1 <= i64::MAX as u64;
        let smin3 = if nonneg_u { max_i(self.smin, umin1 as i64) } else { self.smin };
        let smax3 = if nonneg_u { min_i(self.smax, umax1 as i64) } else { self.smax };
        let umin4 = if smin3 >= 0 { max_u(umin1, smin3 as u64) } else { umin1 };
        let umax4 = if smin3 >= 0 { min_u(umax1, smax3 as u64) } else { umax1 };
        if umin4 == umax4 {
            RegState {
                reg_type: self.reg_type,
                tnum: Tnum { value: umin4, mask: 0 },
                smin: umin4 as i64,
                smax: umin4 as i64,
                umin: umin4,
                umax: umax4,
            }
        } else {
            RegState { reg_type: self.reg_type, tnum: t2, smin: smin3, smax: smax3, umin: umin4, umax: umax4 }
        }
    }

    /// Join of two states at a loop head (see `widen`).
    pub open spec fn widened(self, other: RegState) -> RegState {
        if !same_type(self.reg_type, other.reg_type) {
            if self.reg_type is Uninit || other.reg_type is Uninit {
                unbounded(RegType::Uninit)
            } else {
                self
            }
        } else if self.reg_type is Scalar {
            RegState {
                reg_type: RegType::Scalar,
                tnum: Tnum {
                    value: self.tnum.value & other.tnum.value,
                    mask: self.tnum.mask | other.tnum.mask | (self.tnum.value ^ other.tnum.value),
                },
                smin: min_i(self.smin, other.smin),
                smax: max_i(self.smax, other.smax),
                umin: min_u(self.umin, other.umin),
                umax: max_u(self.umax, other.umax),
            }.refined()
        } else {
            self
        }
    }

    /// `self` is at least as specific as `other` (see `is_substate_of`).
    pub open spec fn substate(self, other: RegState) -> bool {
        if self.reg_type is Uninit {
            other.reg_type is Uninit
        } else if other.reg_type is Uninit {
            false
        } else if !same_type(self.reg_type, other.reg_type) {
            false
        } else if self.reg_type is Scalar {
            &&& self.umin >= other.umin
            &&& self.umax <= other.umax
            &&& self.smin >= other.smin
            &&& self.smax <= other.smax
            &&& self.tnum.mask & !other.tnum.mask == 0
            &&& self.tnum.value & !other.tnum.mask == other.tnum.value & !other.tnum.mask
        } else {
            true
        }
    }

    /// The state of type `t` with no knowledge of the value.
    pub fn with_type(t: RegType) -> (r: RegState)
        ensures
            r == unbounded(t),
    {
        RegState {
            reg_type: t,
            tnum: Tnum::unknown(),
            smin: i64::MIN,
            smax: i64::MAX,
            umin: 0,
            umax: u64::MAX,
        }
    }

    pub fn uninit() -> (r: RegState)
        ensures
            r == unbounded(RegType::Uninit),
    {
        RegState::with_type(RegType::Uninit)
    }

    pub fn scalar_unknown() -> (r: RegState)
        ensures
            r == unbounded(RegType::Scalar),
    {
        RegState::with_type(RegType::Scalar)
    }

    pub fn scalar_value(v: u64) -> (r: RegState)
        ensures
            r == known_scalar(v),
    {
        RegState {
            reg_type: RegType::Scalar,
            tnum: Tnum::constant(v),
            smin: v as i64,
            smax: v as i64,
            umin: v,
            umax: v,
        }
    }

    pub fn frame_ptr(offset: i64) -> (r: RegState)
        ensures
            r == unbounded(RegType::FramePtr { offset }),
    {
        RegState::with_type(RegType::FramePtr { offset })
    }

    pub fn ctx_ptr(offset: i64) -> (r: RegState)
        ensures
            r == unbounded(RegType::CtxPtr { offset }),
    {
        RegState::with_type(RegType::CtxPtr { offset })
    }

    pub fn kernel_ptr() -> (r: RegState)
        ensures
            r == unbounded(RegType::KernelPtr),
    {
        RegState::with_type(RegType::KernelPtr)
    }

    pub fn null() -> (r: RegState)
        ensures
            r == null_state(),
    {
        RegState {
            reg_type: RegType::Null,
            tnum: Tnum::constant(0),
            smin: 0,
            smax: 0,
            umin: 0,
            umax: 0,
        }
    }

    /// A copy of this state.
    pub fn dup(&self) -> (r: RegState)
        ensures
            r == *self,
    {
        RegState {
            reg_type: self.reg_type.dup(),
            tnum: self.tnum,
            smin: self.smin,
            smax: self.smax,
            umin: self.umin,
            umax: self.umax,
        }
    }

    /// Whether two states are equal (types by `same_type`, bounds exactly).
    pub fn same_state(&self, other: &RegState) -> (b: bool)
        ensures
            b == (same_type(self.reg_type, other.reg_type) && self.tnum == other.tnum
                && self.smin == other.smin && self.smax == other.smax
                && self.umin == other.umin && self.umax == other.umax),
    {
        self.reg_type.same(&other.reg_type) && self.tnum == other.tnum && self.smin == other.smin
            && self.smax == other.smax && self.umin == other.umin && self.umax == other.umax
    }

    /// Tighten bounds bidirectionally after learning new information from
    /// tnum, unsigned bounds, or signed bounds.
    pub fn refine_bounds(&mut self)
        ensures
            *final(self) == old(self).refined(),
    {
        let tmin = self.tnum.min_value();
        let tmax = self.tnum.max_value();
        if tmin > self.umin {
            self.umin = tmin;
        }
        if tmax < self.umax {
            self.umax = tmax;
        }
        if self.umin == self.umax {
            self.tnum = Tnum::constant(self.umin);
        }
        if self.umin <= i64::MAX as u64 && self.umax <= i64::MAX as u64 {
            let lo = self.umin as i64;
            let hi = self.umax as i64;
            if lo > self.smin {
                self.smin = lo;
            }
            if hi < self.smax {
                self.smax = hi;
            }
        }
        if self.smin >= 0 {
            let lo = self.smin as u64;
            let hi = self.smax as u64;
            if lo > self.umin {
                self.umin = lo;
            }
            if hi < self.umax {
                self.umax = hi;
            }
        }
        if self.umin == self.umax {
            self.tnum = Tnum::constant(self.umin);
            self.smin = self.umin as i64;
            self.smax = self.umin as i64;
        }
    }

    /// Whether we can read this register (not uninit).
    pub fn is_readable(&self) -> (b: bool)
        ensures
            b == !(self.reg_type is Uninit),
    {
        !self.reg_type.is_uninit()
    }

    /// Widen two register states into one that over-approximates both;
    /// used at loop heads. Types that differ keep `self` (the loop entry
    /// state), unless one side is uninitialised, which gives uninit.
    pub fn widen(&self, other: &RegState) -> (r: RegState)
        ensures
            r == self.widened(*other),
    {
        if !self.reg_type.same(&other.reg_type) {
            if self.reg_type.is_uninit() || other.reg_type.is_uninit() {
                return RegState::uninit();
            }
            return self.dup();
        }
        if self.reg_type.is_scalar() {
            let tnum = Tnum {
                value: self.tnum.value & other.tnum.value,
                mask: self.tnum.mask | other.tnum.mask | (self.tnum.value ^ other.tnum.value),
            };
            let mut result = RegState {
                reg_type: RegType::Scalar,
                tnum,
                smin: if self.smin <= other.smin { self.smin } else { other.smin },
                smax: if self.smax >= other.smax { self.smax } else { other.smax },
                umin: if self.umin <= other.umin { self.umin } else { other.umin },
                umax: if self.umax >= other.umax { self.umax } else { other.umax },
            };
            result.refine_bounds();
            result
        } else {
            self.dup()
        }
    }

    /// Whether `self` is a substate of `other` (`other` is at least as
    /// general); used for fixed-point detection at loop heads.
    pub fn is_substate_of(&self, other: &RegState) -> (b: bool)
        ensures
            b == self.substate(*other),
    {
        if self.reg_type.is_uninit() {
            return other.reg_type.is_uninit();
        }
        if other.reg_type.is_uninit() {
            return false;
        }
        if !self.reg_type.same(&other.reg_type) {
            return false;
        }
        if self.reg_type.is_scalar() {
            self.umin >= other.umin && self.umax <= other.umax && self.smin >= other.smin
                && self.smax <= other.smax && (self.tnum.mask & !other.tnum.mask) == 0
                && (self.tnum.value & !other.tnum.mask) == (other.tnum.value & !other.tnum.mask)
        } else {
            true
        }
    }

    /// Appends the description: the type, and for a scalar that is not
    /// a known constant its bounds ` u=[umin,umax] s=[smin,smax]`.
    pub fn push_display(&self, s: &mut String)
        ensures
            final(s)@ == old(s)@ + self.reg_type.display() + (
                if self.reg_type is Scalar && self.tnum.mask != 0 {
                    " u=["@ + dec_nat(self.umin as nat) + seq![','] + dec_nat(self.umax as nat) + "] s=["@
                        + dec_int(self.smin as int) + seq![','] + dec_int(self.smax as int) + seq![']']
                } else {
                    Seq::<char>::empty()
                }),
    {
        self.reg_type.push_display(s);
        let ghost s1 = s@;
        if self.reg_type.is_scalar() && !self.tnum.is_known() {
            push_str(s, " u=[");
            push_dec_u64(s, self.umin);
            push_char(s, ',');
            push_dec_u64(s, self.umax);
            push_str(s, "] s=[");
            push_dec_i64(s, self.smin);
            push_char(s, ',');
            push_dec_i64(s, self.smax);
            push_char(s, ']');
            assert(s@ =~= s1 + " u=["@ + dec_nat(self.umin as nat) + seq![','] + dec_nat(self.umax as nat) + "] s=["@
                + dec_int(self.smin as int) + seq![','] + dec_int(self.smax as int) + seq![']']);
        } else {
            assert(s@ =~= s1 + Seq::<char>::empty());
        }
    }
}

proof fn lemma_i64_cast(x: u64)
    ensures
        x <= i64::MAX as u64 ==> (x as i64) as int == x as int,
        (x as i64) >= 0 ==> x <= i64::MAX as u64 && (x as i64) as int == x as int,
        (x as i64) < 0 ==> x > i64::MAX as u64,
{
    assert(x <= 0x7fff_ffff_ffff_ffffu64 ==> (x as i64) as int == x as int) by (bit_vector);
    assert((x as i64) >= 0 ==> x <= 0x7fff_ffff_ffff_ffffu64) by (bit_vector);
    assert((x as i64) < 0 ==> x > 0x7fff_ffff_ffff_ffffu64) by (bit_vector);
}

proof fn lemma_u64_cast(v: i64)
    ensures
        v >= 0 ==> (v as u64) as int == v as int,
{
    assert(v >= 0 ==> (v as u64) as int == v as int) by (bit_vector);
}

/// Tightening bounds never loses a value: every value the state stood
/// for before, it stands for after. The type is unchanged, and a well
/// formed tnum stays well formed.
pub proof fn lemma_refine_sound(r: RegState, x: u64)
    ensures
        r.refined().reg_type == r.reg_type,
        r.tnum.wf() ==> r.refined().tnum.wf(),
        r.contains(x) ==> r.refined().contains(x),
{
    let t = r.tnum;
    let umin1 = max_u(r.umin, t.value);
    let umax1 = max_u(0, min_u(r.umax, t.value | t.mask));
    let v = t.value;
    assert(v & 0 == 0) by (bit_vector);
    assert(umin1 & 0 == 0) by (bit_vector);
    lemma_i64_cast(x);
    lemma_i64_cast(umin1);
    lemma_i64_cast(umax1);
    let smin3 = if umin1 <= i64::MAX as u64 && umax1 <= i64::MAX as u64 { max_i(r.smin, umin1 as i64) } else { r.smin };
    let smax3 = if umin1 <= i64::MAX as u64 && umax1 <= i64::MAX as u64 { min_i(r.smax, umax1 as i64) } else { r.smax };
    lemma_u64_cast(smin3);
    lemma_u64_cast(smax3);
    if r.contains(x) {
        lemma_tnum_range(t, x);
        let umin4 = r.refined().umin;
        assert(x & !0u64 == x) by (bit_vector);
        assert(umin4 & !0u64 == umin4) by (bit_vector);
    }
    let u = r.refined().umin;
    assert(u & 0 == 0) by (bit_vector);
}

/// Widening is sound for scalars: whatever either side stands for, the
/// widened state stands for too.
pub proof fn lemma_widen_sound(a: RegState, b: RegState, x: u64)
    requires
        a.reg_type is Scalar,
        b.reg_type is Scalar,
        a.tnum.wf(),
        b.tnum.wf(),
        a.contains(x) || b.contains(x),
    ensures
        a.widened(b).contains(x),
        a.widened(b).tnum.wf(),
{
    let (av, am, bv, bm) = (a.tnum.value, a.tnum.mask, b.tnum.value, b.tnum.mask);
    let j = Tnum { value: av & bv, mask: am | bm | (av ^ bv) };
    assert(x & !am == av ==> x & !(am | bm | (av ^ bv)) == av & bv) by (bit_vector)
        requires av & am == 0, bv & bm == 0;
    assert(x & !bm == bv ==> x & !(am | bm | (av ^ bv)) == av & bv) by (bit_vector)
        requires av & am == 0, bv & bm == 0;
    assert((av & bv) & (am | bm | (av ^ bv)) == 0) by (bit_vector)
        requires av & am == 0, bv & bm == 0;
    let pre = RegState {
        reg_type: RegType::Scalar,
        tnum: j,
        smin: min_i(a.smin, b.smin),
        smax: max_i(a.smax, b.smax),
        umin: min_u(a.umin, b.umin),
        umax: max_u(a.umax, b.umax),
    };
    assert(pre.contains(x));
    lemma_refine_sound(pre, x);
}

/// A substate stands for no more values than the state it is a substate
/// of (for scalars, when the larger state's tnum is well formed).
pub proof fn lemma_substate_sound(a: RegState, b: RegState, x: u64)
    requires
        a.reg_type is Scalar,
        b.tnum.wf(),
        a.substate(b),
        a.contains(x),
    ensures
        b.contains(x),
{
    let (av, am, bv, bm) = (a.tnum.value, a.tnum.mask, b.tnum.value, b.tnum.mask);
    assert(x & !bm == bv) by (bit_vector)
        requires bv & bm == 0, x & !am == av, am & !bm == 0, av & !bm == bv & !bm;
}

/// Every state is a substate of itself.
pub proof fn lemma_substate_reflexive(a: RegState)
    ensures
        a.substate(a),
{
    lemma_same_type_equiv(a.reg_type, a.reg_type, a.reg_type);
    let (v, m) = (a.tnum.value, a.tnum.mask);
    assert(m & !m == 0) by (bit_vector);
}


/// Whether `t` is a possibly-null pointer of allocation `ptr_id`.
pub open spec fn nullable_with_id(t: RegType, ptr_id: usize) -> bool {
    match t {
        RegType::PtrOrNull { id, .. } => id == ptr_id,
        _ => false,
    }
}

/// A state after the null check of allocation `ptr_id` resolved it to
/// `new_type`: the null state for `Null`, else the type replaced and the
/// bounds kept. States of other allocations are unchanged.
pub open spec fn resolve_nullable(r: RegState, ptr_id: usize, new_type: RegType) -> RegState {
    if nullable_with_id(r.reg_type, ptr_id) {
        if new_type is Null { null_state() } else { RegState { reg_type: new_type, ..r } }
    } else {
        r
    }
}

/// Number of bytes in the BPF stack frame.
pub const STACK_BYTES: i64 = 512;

/// The full verifier state at a programme point: all 11 registers.
#[derive(Debug)]
pub struct VerifierState {
    pub regs: [RegState; 11],
}

impl VerifierState {
    /// State of register `r`.
    pub open spec fn reg(self, r: Reg) -> RegState {
        self.regs@[r.num() as int]
    }

    /// The programme-entry state: r1 the context, r10 the frame pointer,
    /// all other registers uninitialised.
    pub open spec fn is_entry(self) -> bool {
        forall|i: int| 0 <= i < 11 ==> #[trigger] self.regs@[i] == (
            if i == 1 { unbounded(RegType::CtxPtr { offset: 0 }) }
            else if i == 10 { unbounded(RegType::FramePtr { offset: 0 }) }
            else { unbounded(RegType::Uninit) })
    }

    /// Initial state at programme entry: r1 = ctx, r10 = fp, rest uninit.
    pub fn entry() -> (st: VerifierState)
        ensures
            st.is_entry(),
    {
        VerifierState {
            regs: [
                RegState::uninit(),
                RegState::ctx_ptr(0),
                RegState::uninit(),
                RegState::uninit(),
                RegState::uninit(),
                RegState::uninit(),
                RegState::uninit(),
                RegState::uninit(),
                RegState::uninit(),
                RegState::uninit(),
                RegState::frame_ptr(0),
            ],
        }
    }

    pub fn get(&self, reg: Reg) -> (r: &RegState)
        ensures
            *r == self.reg(reg),
    {
        &self.regs[reg.index() as usize]
    }

    pub fn get_mut(&mut self, reg: Reg) -> (r: &mut RegState)
        ensures
            *r == old(self).reg(reg),
            final(self).regs@ == old(self).regs@.update(reg.num() as int, *final(r)),
    {
        &mut self.regs[reg.index() as usize]
    }

    pub fn set(&mut self, reg: Reg, state: RegState)
        ensures
            final(self).regs@ == old(self).regs@.update(reg.num() as int, state),
    {
        self.regs[reg.index() as usize] = state;
    }

    /// A copy of this state.
    pub fn dup(&self) -> (r: VerifierState)
        ensures
            r.regs@ == self.regs@,
    {
        let r = VerifierState {
            regs: [
                self.regs[0].dup(), self.regs[1].dup(), self.regs[2].dup(), self.regs[3].dup(),
                self.regs[4].dup(), self.regs[5].dup(), self.regs[6].dup(), self.regs[7].dup(),
                self.regs[8].dup(), self.regs[9].dup(), self.regs[10].dup(),
            ],
        };
        assert(r.regs@ =~= self.regs@);
        r
    }

    /// Widen all registers: a state that over-approximates both.
    pub fn widen(&self, other: &VerifierState) -> (w: VerifierState)
        ensures
            forall|i: int| 0 <= i < 11 ==> #[trigger] w.regs@[i] == self.regs@[i].widened(other.regs@[i]),
    {
        VerifierState {
            regs: [
                self.regs[0].widen(&other.regs[0]), self.regs[1].widen(&other.regs[1]),
                self.regs[2].widen(&other.regs[2]), self.regs[3].widen(&other.regs[3]),
                self.regs[4].widen(&other.regs[4]), self.regs[5].widen(&other.regs[5]),
                self.regs[6].widen(&other.regs[6]), self.regs[7].widen(&other.regs[7]),
                self.regs[8].widen(&other.regs[8]), self.regs[9].widen(&other.regs[9]),
                self.regs[10].widen(&other.regs[10]),
            ],
        }
    }

    pub open spec fn substate(self, other: VerifierState) -> bool {
        forall|i: int| 0 <= i < 11 ==> #[trigger] self.regs@[i].substate(other.regs@[i])
    }

    /// Whether `self` is a substate of `other` for all registers.
    pub fn is_substate_of(&self, other: &VerifierState) -> (b: bool)
        ensures
            b == self.substate(*other),
    {
        let mut i: usize = 0;
        while i < 11
            invariant
                i <= 11,
                forall|j: int| 0 <= j < i ==> #[trigger] self.regs@[j].substate(other.regs@[j]),
            decreases 11 - i,
        {
            if !self.regs[i].is_substate_of(&other.regs[i]) {
                return false;
            }
            i += 1;
        }
        true
    }
}

/// What a stack slot contains.
#[derive(Debug, PartialEq)]
pub enum SlotState {
    /// Not yet written.
    Uninit,
    /// Contains scalar data of the given width.
    Scalar { width: u8 },
    /// Contains a spilled register (pointer type preserved).
    Spill(RegState),
}

/// Index into the stack array of the frame-pointer-relative offset.
pub open spec fn stack_index(offset: int) -> int {
    STACK_BYTES + offset
}

/// Whether a `width`-byte access at `offset` lies inside the frame.
pub open spec fn in_frame(offset: int, width: int) -> bool {
    stack_index(offset) >= 0 && stack_index(offset) + width <= STACK_BYTES
}

/// Whether the offsets of `entries` are pairwise distinct.
pub open spec fn distinct_offsets(entries: Seq<(i64, RegState)>) -> bool {
    forall|i: int, j: int| 0 <= i < j < entries.len() ==> #[trigger] entries[i].0 != #[trigger] entries[j].0
}

/// The 512-byte BPF stack, tracked per byte for initialisation, with the
/// registers spilled to 8-byte slots.
///
/// Offsets are relative to r10: offset -1 is byte 511, offset -512 byte 0.
#[derive(Debug)]
pub struct StackState {
    init: [bool; 512],
    spills: Vec<(i64, RegState)>,
}

impl StackState {
    /// Whether byte `i` of the frame (0..512) has been written.
    pub closed spec fn written(self, i: int) -> bool {
        self.init@[i]
    }

    /// The spilled registers, by offset.
    pub closed spec fn spill_map(self) -> Map<i64, RegState> {
        Map::new(
            |o: i64| exists|k: int| 0 <= k < self.spills@.len() && self.spills@[k].0 == o,
            |o: i64| self.spills@[choose|k: int| 0 <= k < self.spills@.len() && self.spills@[k].0 == o].1,
        )
    }

    /// The spill list holds each offset at most once.
    pub closed spec fn wf(self) -> bool {
        distinct_offsets(self.spills@)
    }

    /// Whether every byte of a `width`-byte access at `offset` is inside the
    /// frame and written.
    pub open spec fn readable(self, offset: int, width: int) -> bool {
        width <= 0 || (in_frame(offset, width) && forall|j: int|
            stack_index(offset) <= j < stack_index(offset) + width ==> #[trigger] self.written(j))
    }

    /// `self` has every byte written that `other` has.
    pub open spec fn covers(self, other: StackState) -> bool {
        forall|i: int| 0 <= i < STACK_BYTES ==> #[trigger] other.written(i) ==> self.written(i)
    }

    pub fn new() -> (s: StackState)
        ensures
            s.wf(),
            forall|i: int| 0 <= i < STACK_BYTES ==> !#[trigger] s.written(i),
            s.spill_map() =~= Map::<i64, RegState>::empty(),
    {
        StackState { init: [false; 512], spills: Vec::new() }
    }

    /// A copy of this stack.
    pub fn dup(&self) -> (r: StackState)
        ensures
            r.wf() == self.wf(),
            forall|i: int| #[trigger] r.written(i) == self.written(i),
            r.spill_map() == self.spill_map(),
    {
        let mut spills: Vec<(i64, RegState)> = Vec::new();
        let mut k: usize = 0;
        while k < self.spills.len()
            invariant
                k <= self.spills@.len(),
                spills@ =~= self.spills@.take(k as int),
            decreases self.spills@.len() - k,
        {
            let e = (self.spills[k].0, self.spills[k].1.dup());
            spills.push(e);
            assert(self.spills@.take(k + 1) =~= self.spills@.take(k as int).push(self.spills@[k as int]));
            k += 1;
        }
        assert(self.spills@.take(self.spills@.len() as int) =~= self.spills@);
        let r = StackState { init: self.init, spills };
        assert(r.spill_map() =~= self.spill_map());
        r
    }

    /// Convert a frame-pointer-relative offset to a stack array index:
    /// `512 + offset` when that is in 0..512.
    pub fn to_index(offset: i64) -> (r: Option<usize>)
        ensures
            r == (if in_frame(offset as int, 1) { Some(stack_index(offset as int) as usize) } else { None::<usize> }),
    {
        if offset >= -512 && offset < 0 {
            Some((512 + offset) as usize)
        } else {
            None
        }
    }

    /// Mark the bytes of a `width`-byte store at `offset` as written (the
    /// bytes that fall inside the frame).
    pub fn mark_written(&mut self, offset: i64, width: u8)
        ensures
            final(self).spill_map() == old(self).spill_map(),
            final(self).wf() == old(self).wf(),
            forall|i: int| 0 <= i < STACK_BYTES ==> #[trigger] final(self).written(i) == (old(self).written(i)
                || (stack_index(offset as int) <= i < stack_index(offset as int) + width)),
    {
        let mut k: u8 = 0;
        while k < width
            invariant
                k <= width,
                self.spills == old(self).spills,
                forall|i: int| 0 <= i < STACK_BYTES ==> #[trigger] self.init@[i] == (old(self).init@[i]
                    || (stack_index(offset as int) <= i < stack_index(offset as int) + k)),
            decreases width - k,
        {
            let pos: i128 = 512 + offset as i128 + k as i128;
            if 0 <= pos && pos < 512 {
                self.init[pos as usize] = true;
            }
            k += 1;
        }
    }

    /// Check that all bytes in the range are inside the frame and written.
    pub fn check_readable(&self, offset: i64, width: u8) -> (b: bool)
        ensures
            b == self.readable(offset as int, width as int),
    {
        let mut k: usize = 0;
        while k < width as usize
            invariant
                k <= width,
                forall|j: int| 0 <= j < k ==> #[trigger] self.readable_at(offset as int, j),
            decreases width - k,
        {
            let pos: i128 = 512 + offset as i128 + k as i128;
            if !(0 <= pos && pos < 512) || !self.init[pos as usize] {
                assert(!self.readable_at(offset as int, k as int));
                proof { self.lemma_readable_at(offset as int, width as int); }
                return false;
            }
            k += 1;
        }
        proof { self.lemma_readable_at(offset as int, width as int); }
        true
    }

    /// Byte `j` of an access at `offset` is inside the frame and written.
    pub closed spec fn readable_at(self, offset: int, j: int) -> bool {
        0 <= stack_index(offset) + j < STACK_BYTES && self.init@[stack_index(offset) + j]
    }

    proof fn lemma_readable_at(self, offset: int, width: int)
        ensures
            self.readable(offset, width) <==> forall|j: int| 0 <= j < width ==> #[trigger] self.readable_at(offset, j),
    {
        if forall|j: int| 0 <= j < width ==> #[trigger] self.readable_at(offset, j) {
            if width > 0 {
                assert(self.readable_at(offset, 0));
                assert(self.readable_at(offset, width - 1));
                assert forall|q: int| stack_index(offset) <= q < stack_index(offset) + width implies #[trigger] self.written(q) by {
                    assert(self.readable_at(offset, q - stack_index(offset)));
                }
            }
        }
        if self.readable(offset, width) {
            assert forall|j: int| 0 <= j < width implies #[trigger] self.readable_at(offset, j) by {
                assert(self.written(stack_index(offset) + j));
            }
        }
    }

    /// Check that the access is within the 512-byte stack.
    pub fn check_bounds(offset: i64, width: u8) -> (b: bool)
        ensures
            b == in_frame(offset as int, width as int),
    {
        let start: i128 = 512 + offset as i128;
        let end: i128 = start + width as i128;
        start >= 0 && end <= 512
    }

    fn find_spill(&self, offset: i64) -> (r: Option<usize>)
        ensures
            match r {
                Some(k) => k < self.spills@.len() && self.spills@[k as int].0 == offset,
                None => forall|k: int| 0 <= k < self.spills@.len() ==> #[trigger] self.spills@[k].0 != offset,
            },
    {
        let mut k: usize = 0;
        while k < self.spills.len()
            invariant
                k <= self.spills@.len(),
                forall|j: int| 0 <= j < k ==> #[trigger] self.spills@[j].0 != offset,
            decreases self.spills@.len() - k,
        {
            if self.spills[k].0 == offset {
                return Some(k);
            }
            k += 1;
        }
        None
    }

    proof fn lemma_spill_lookup(self, k: int)
        requires
            self.wf(),
            0 <= k < self.spills@.len(),
        ensures
            self.spill_map().contains_key(self.spills@[k].0),
            self.spill_map()[self.spills@[k].0] == self.spills@[k].1,
    {
        let o = self.spills@[k].0;
        let c = choose|j: int| 0 <= j < self.spills@.len() && self.spills@[j].0 == o;
        if c != k {
            if c < k {
                assert(self.spills@[c].0 != self.spills@[k].0);
            } else {
                assert(self.spills@[k].0 != self.spills@[c].0);
            }
        }
    }

    /// Retrieve a spilled register.
    pub fn get_spill(&self, offset: i64) -> (r: Option<&RegState>)
        requires
            self.wf(),
        ensures
            match r {
                Some(v) => self.spill_map().contains_key(offset) && *v == self.spill_map()[offset],
                None => !self.spill_map().contains_key(offset),
            },
    {
        match self.find_spill(offset) {
            Some(k) => {
                proof { self.lemma_spill_lookup(k as int); }
                Some(&self.spills[k].1)
            }
            None => None,
        }
    }

    /// Clear a spill (e.g. when overwriting with a non-8-byte store).
    pub fn clear_spill(&mut self, offset: i64)
        requires
            old(self).wf(),
        ensures
            final(self).wf(),
            forall|i: int| #[trigger] final(self).written(i) == old(self).written(i),
            final(self).spill_map() =~= old(self).spill_map().remove(offset),
    {
        match self.find_spill(offset) {
            Some(k) => {
                let ghost before = *self;
                self.spills.remove(k);
                proof {
                    assert forall|o: i64| #[trigger] self.spill_map().contains_key(o)
                        == before.spill_map().remove(offset).contains_key(o) by {
                        if before.spill_map().contains_key(o) && o != offset {
                            let j = choose|j: int| 0 <= j < before.spills@.len() && before.spills@[j].0 == o;
                            if j < k { assert(self.spills@[j].0 == o); } else { assert(self.spills@[j - 1].0 == o); }
                        }
                    }
                    assert forall|o: i64| #[trigger] self.spill_map().contains_key(o) implies
                        self.spill_map()[o] == before.spill_map()[o] by {
                        let j = choose|j: int| 0 <= j < self.spills@.len() && self.spills@[j].0 == o;
                        if j < k {
                            before.lemma_spill_lookup(j);
                        } else {
                            before.lemma_spill_lookup(j + 1);
                        }
                        self.lemma_spill_lookup(j);
                    }
                }
            }
            None => {
                assert(self.spill_map() =~= self.spill_map().remove(offset));
            }
        }
    }

    /// Spill a register to the stack (8-byte store): the 8 bytes become
    /// written and the register's state is kept for a later reload.
    pub fn spill(&mut self, offset: i64, reg: &RegState)
        requires
            old(self).wf(),
        ensures
            final(self).wf(),
            forall|i: int| 0 <= i < STACK_BYTES ==> #[trigger] final(self).written(i) == (old(self).written(i)
                || (stack_index(offset as int) <= i < stack_index(offset as int) + 8)),
            final(self).spill_map() =~= old(self).spill_map().insert(offset, *reg),
    {
        self.mark_written(offset, 8);
        let ghost marked = *self;
        self.clear_spill(offset);
        let ghost cleared = *self;
        let copy = reg.dup();
        self.spills.push((offset, copy));
        proof {
            let n = self.spills@.len() - 1;
            assert(self.init == cleared.init);
            assert forall|i: int| 0 <= i < STACK_BYTES implies #[trigger] self.written(i) == (old(self).written(i)
                || (stack_index(offset as int) <= i < stack_index(offset as int) + 8)) by {
                assert(cleared.written(i) == marked.written(i));
            }
            assert forall|i: int, j: int| 0 <= i < j < self.spills@.len() implies
                #[trigger] self.spills@[i].0 != #[trigger] self.spills@[j].0 by {
                if j == n {
                    if cleared.spills@[i].0 == offset {
                        cleared.lemma_spill_lookup(i);
                    }
                } else {
                    assert(cleared.spills@[i].0 != cleared.spills@[j].0);
                }
            }
            assert(self.spills@[n] == (offset, *reg));
            self.lemma_spill_lookup(n);
            assert forall|o: i64| o != offset && #[trigger] self.spill_map().contains_key(o) implies
                cleared.spill_map().contains_key(o) && self.spill_map()[o] == cleared.spill_map()[o] by {
                let j = choose|j: int| 0 <= j < self.spills@.len() && self.spills@[j].0 == o;
                assert(j < n);
                cleared.lemma_spill_lookup(j);
                self.lemma_spill_lookup(j);
            }
            assert forall|o: i64| o != offset && #[trigger] cleared.spill_map().contains_key(o) implies
                self.spill_map().contains_key(o) by {
                let j = choose|j: int| 0 <= j < cleared.spills@.len() && cleared.spills@[j].0 == o;
                assert(self.spills@[j].0 == o);
            }
            let target = old(self).spill_map().insert(offset, *reg);
            assert(marked.spill_map() == old(self).spill_map());
            assert forall|o: i64| #[trigger] self.spill_map().contains_key(o) == target.contains_key(o) by {
                if o != offset {
                    if target.contains_key(o) {
                        assert(cleared.spill_map().contains_key(o));
                    }
                }
            }
            assert forall|o: i64| #[trigger] self.spill_map().contains_key(o) implies self.spill_map()[o] == target[o] by {
                if o != offset {
                    assert(cleared.spill_map()[o] == marked.spill_map()[o]);
                }
            }
            assert(self.spill_map() =~= target);
        }
    }

    /// Whether `self` is a substate of `other` for stack initialisation:
    /// every byte initialised in `other` is also initialised in `self`.
    pub fn is_substate_of(&self, other: &StackState) -> (b: bool)
        ensures
            b == self.covers(*other),
    {
        let mut i: usize = 0;
        while i < 512
            invariant
                i <= 512,
                forall|j: int| 0 <= j < i ==> #[trigger] other.written(j) ==> self.written(j),
            decreases 512 - i,
        {
            if other.init[i] && !self.init[i] {
                assert(other.written(i as int) && !self.written(i as int));
                return false;
            }
            i += 1;
        }
        true
    }

    /// Widen two stack states: a byte is initialised only if it is in both;
    /// spills are kept only where both hold the same register state.
    pub fn widen(&self, other: &StackState) -> (w: StackState)
        requires
            self.wf(),
            other.wf(),
        ensures
            w.wf(),
            forall|i: int| 0 <= i < STACK_BYTES ==> #[trigger] w.written(i) == (self.written(i) && other.written(i)),
            forall|o: i64| #[trigger] w.spill_map().contains_key(o) <==> (self.spill_map().contains_key(o)
                && other.spill_map().contains_key(o) && same_reg(self.spill_map()[o], other.spill_map()[o])),
            forall|o: i64| #[trigger] w.spill_map().contains_key(o) ==> w.spill_map()[o] == self.spill_map()[o],
    {
        let mut init = [false; 512];
        let mut i: usize = 0;
        while i < 512
            invariant
                i <= 512,
                forall|j: int| 0 <= j < i ==> #[trigger] init@[j] == (self.init@[j] && other.init@[j]),
                forall|j: int| i <= j < 512 ==> !#[trigger] init@[j],
            decreases 512 - i,
        {
            init[i] = self.init[i] && other.init[i];
            i += 1;
        }
        let mut spills: Vec<(i64, RegState)> = Vec::new();
        let mut k: usize = 0;
        while k < self.spills.len()
            invariant
                k <= self.spills@.len(),
                self.wf(),
                other.wf(),
                forall|a: int| 0 <= a < spills@.len() ==> {
                    &&& self.spill_map().contains_key(#[trigger] spills@[a].0)
                    &&& self.spill_map()[spills@[a].0] == spills@[a].1
                    &&& other.spill_map().contains_key(spills@[a].0)
                    &&& same_reg(spills@[a].1, other.spill_map()[spills@[a].0])
                },
                forall|j: int| 0 <= j < k && other.spill_map().contains_key(#[trigger] self.spills@[j].0)
                    && same_reg(self.spills@[j].1, other.spill_map()[self.spills@[j].0])
                    ==> exists|a: int| 0 <= a < spills@.len() && spills@[a].0 == self.spills@[j].0,
                distinct_offsets(spills@),
                forall|a: int, j: int| 0 <= a < spills@.len() && k <= j < self.spills@.len()
                    ==> #[trigger] spills@[a].0 != #[trigger] self.spills@[j].0,
            decreases self.spills@.len() - k,
        {
            let off = self.spills[k].0;
            let ghost before = spills@;
            proof {
                self.lemma_spill_lookup(k as int);
            }
            match other.get_spill(off) {
                Some(other_reg) => {
                    if self.spills[k].1.same_state(other_reg) {
                        let copy = self.spills[k].1.dup();
                        spills.push((off, copy));
                        proof {
                            assert forall|a: int, c: int| 0 <= a < c < spills@.len() implies
                                #[trigger] spills@[a].0 != #[trigger] spills@[c].0 by {
                                if c == before.len() {
                                    assert(before[a].0 != self.spills@[k as int].0);
                                } else {
                                    assert(before[a].0 != before[c].0);
                                }
                            }
                            assert(spills@[before.len() as int].0 == self.spills@[k as int].0);
                        }
                    } else {
                        assert(!same_reg(self.spills@[k as int].1, other.spill_map()[off]));
                    }
                }
                None => {
                    assert(!other.spill_map().contains_key(off));
                }
            }
            proof {
                assert forall|a: int, j: int| 0 <= a < spills@.len() && k + 1 <= j < self.spills@.len()
                    implies #[trigger] spills@[a].0 != #[trigger] self.spills@[j].0 by {
                    if a == before.len() {
                        assert(self.spills@[k as int].0 != self.spills@[j].0);
                    } else {
                        assert(before[a].0 != self.spills@[j].0);
                    }
                }
                assert forall|j: int| 0 <= j < k + 1 && other.spill_map().contains_key(#[trigger] self.spills@[j].0)
                    && same_reg(self.spills@[j].1, other.spill_map()[self.spills@[j].0])
                    implies exists|a: int| 0 <= a < spills@.len() && spills@[a].0 == self.spills@[j].0 by {
                    if j < k {
                        let a = choose|a: int| 0 <= a < before.len() && before[a].0 == self.spills@[j].0;
                        assert(spills@[a] == before[a]);
                    } else {
                        assert(spills@[before.len() as int].0 == self.spills@[j].0);
                    }
                }
            }
            k += 1;
        }
        let w = StackState { init, spills };
        proof {
            assert forall|o: i64| #[trigger] w.spill_map().contains_key(o) implies self.spill_map().contains_key(o)
                && other.spill_map().contains_key(o) && w.spill_map()[o] == self.spill_map()[o]
                && same_reg(self.spill_map()[o], other.spill_map()[o]) by {
                let a = choose|a: int| 0 <= a < w.spills@.len() && w.spills@[a].0 == o;
                w.lemma_spill_lookup(a);
            }
            assert forall|o: i64| self.spill_map().contains_key(o) && other.spill_map().contains_key(o)
                && same_reg(self.spill_map()[o], other.spill_map()[o]) implies #[trigger] w.spill_map().contains_key(o) by {
                let j = choose|j: int| 0 <= j < self.spills@.len() && self.spills@[j].0 == o;
                self.lemma_spill_lookup(j);
                let a = choose|a: int| 0 <= a < spills@.len() && spills@[a].0 == self.spills@[j].0;
                assert(w.spills@[a].0 == o);
            }
        }
        w
    }

    /// Rewrites every spilled possibly-null pointer with allocation id
    /// `ptr_id`: to the null state when `new_type` is `Null`, else to
    /// `new_type` with the spill's bounds kept.
    pub fn refine_spills(&mut self, ptr_id: usize, new_type: &RegType)
        requires
            old(self).wf(),
        ensures
            final(self).wf(),
            forall|i: int| #[trigger] final(self).written(i) == old(self).written(i),
            final(self).spill_map().dom() =~= old(self).spill_map().dom(),
            forall|o: i64| #[trigger] old(self).spill_map().contains_key(o) ==> final(self).spill_map()[o]
                == resolve_nullable(old(self).spill_map()[o], ptr_id, *new_type),
    {
        let ghost before = *self;
        let mut k: usize = 0;
        while k < self.spills.len()
            invariant
                k <= self.spills@.len(),
                self.spills@.len() == before.spills@.len(),
                self.init == before.init,
                before.wf(),
                forall|j: int| 0 <= j < self.spills@.len() ==> #[trigger] self.spills@[j].0 == before.spills@[j].0,
                forall|j: int| 0 <= j < self.spills@.len() ==> #[trigger] self.spills@[j].1 == (
                    if j < k { resolve_nullable(before.spills@[j].1, ptr_id, *new_type) } else { before.spills@[j].1 }),
            decreases self.spills@.len() - k,
        {
            let hit = match &self.spills[k].1.reg_type {
                RegType::PtrOrNull { id, .. } => *id == ptr_id,
                _ => false,
            };
            if hit {
                let off = self.spills[k].0;
                let refined = if new_type.is_null() {
                    RegState::null()
                } else {
                    let cur = &self.spills[k].1;
                    RegState {
                        reg_type: new_type.dup(),
                        tnum: cur.tnum,
                        smin: cur.smin,
                        smax: cur.smax,
                        umin: cur.umin,
                        umax: cur.umax,
                    }
                };
                self.spills.set(k, (off, refined));
            }
            k += 1;
        }
        proof {
            assert(distinct_offsets(self.spills@)) by {
                assert forall|i: int, j: int| 0 <= i < j < self.spills@.len() implies
                    #[trigger] self.spills@[i].0 != #[trigger] self.spills@[j].0 by {
                    assert(before.spills@[i].0 != before.spills@[j].0);
                }
            }
            assert forall|o: i64| #[trigger] self.spill_map().contains_key(o) == before.spill_map().contains_key(o) by {
                if self.spill_map().contains_key(o) {
                    let j = choose|j: int| 0 <= j < self.spills@.len() && self.spills@[j].0 == o;
                    assert(before.spills@[j].0 == o);
                }
                if before.spill_map().contains_key(o) {
                    let j = choose|j: int| 0 <= j < before.spills@.len() && before.spills@[j].0 == o;
                    assert(self.spills@[j].0 == o);
                }
            }
            assert forall|o: i64| #[trigger] before.spill_map().contains_key(o) implies self.spill_map()[o]
                == resolve_nullable(before.spill_map()[o], ptr_id, *new_type) by {
                let j = choose|j: int| 0 <= j < before.spills@.len() && before.spills@[j].0 == o;
                before.lemma_spill_lookup(j);
                self.lemma_spill_lookup(j);
            }
        }
    }
}

/// Writing then reading: after `mark_written(offset, width)` of an access
/// inside the frame, the same access is readable; and writing never makes
/// a readable access unreadable.
pub proof fn lemma_write_then_read(before: StackState, after: StackState, offset: int, width: int, o2: int, w2: int)
    requires
        forall|i: int| 0 <= i < STACK_BYTES ==> #[trigger] after.written(i) == (before.written(i)
            || (stack_index(offset) <= i < stack_index(offset) + width)),
    ensures
        in_frame(offset, width) ==> after.readable(offset, width),
        before.readable(o2, w2) ==> after.readable(o2, w2),
{
    if before.readable(o2, w2) && w2 > 0 {
        assert forall|j: int| stack_index(o2) <= j < stack_index(o2) + w2 implies #[trigger] after.written(j) by {
            assert(before.written(j));
        }
    }
}

/// Widening two stacks keeps exactly the bytes written in both, so each
/// input covers the widened stack (the join is an upper bound); and
/// covering is reflexive.
pub proof fn lemma_stack_widen_upper_bound(a: StackState, b: StackState, w: StackState)
    requires
        forall|i: int| 0 <= i < STACK_BYTES ==> #[trigger] w.written(i) == (a.written(i) && b.written(i)),
    ensures
        a.covers(w),
        b.covers(w),
        a.covers(a),
        forall|o: int, n: int| #[trigger] w.readable(o, n) ==> a.readable(o, n) && b.readable(o, n),
{
    assert forall|o: int, n: int| #[trigger] w.readable(o, n) implies a.readable(o, n) && b.readable(o, n) by {
        if n > 0 {
            assert forall|j: int| stack_index(o) <= j < stack_index(o) + n implies #[trigger] a.written(j) by {
                assert(w.written(j));
            }
            assert forall|j: int| stack_index(o) <= j < stack_index(o) + n implies #[trigger] b.written(j) by {
                assert(w.written(j));
            }
        }
    }
}

/// Widening register states at a loop head is sound register by register:
/// each scalar register of either input is over-approximated.
pub proof fn lemma_state_widen_sound(a: VerifierState, b: VerifierState, w: VerifierState, i: int, x: u64)
    requires
        forall|j: int| 0 <= j < 11 ==> #[trigger] w.regs@[j] == a.regs@[j].widened(b.regs@[j]),
        0 <= i < 11,
        a.regs@[i].reg_type is Scalar,
        b.regs@[i].reg_type is Scalar,
        a.regs@[i].tnum.wf(),
        b.regs@[i].tnum.wf(),
        a.regs@[i].contains(x) || b.regs@[i].contains(x),
    ensures
        w.regs@[i].contains(x),
{
    lemma_widen_sound(a.regs@[i], b.regs@[i], x);
}

/// Every verifier state is a substate of itself.
pub proof fn lemma_state_substate_reflexive(a: VerifierState)
    ensures
        a.substate(a),
{
    assert forall|i: int| 0 <= i < 11 implies #[trigger] a.regs@[i].substate(a.regs@[i]) by {
        lemma_substate_reflexive(a.regs@[i]);
    }
}

} // verus!
