//! Verification errors of the kernel-style checker, anchored to an
//! instruction and optionally to a C source location.

use vstd::prelude::*;

use crate::bpf::instruction::Reg;
use crate::elf::parser::SourceLoc;
use crate::kverify::state::{push_signed, signed_text};
use crate::text::{
    chars_of, dec_int, dec_nat, hex_byte, push_char, push_dec_i64, push_dec_u64, push_hex_byte, push_str, str_eq,
};
use crate::verify::report::{is_markable, line_markable, line_range, mark_line, report_header};

use ariadne::{sources, Color, Label, Report, ReportKind};

verus! {

/// A verification error anchored to a specific instruction, with an
/// optional DWARF source location.
#[derive(Debug, Clone)]
pub struct VerifyError {
    /// Instruction index where the error was detected.
    pub pc: usize,
    /// What went wrong.
    pub kind: ErrorKind,
    /// DWARF source location (file:line), if available.
    pub source_loc: Option<SourceLoc>,
}

#[derive(Debug, Clone)]
pub enum ErrorKind {
    /// Attempted to read an uninitialised stack slot.
    UninitStackRead { offset: i64, width: u8 },
    /// Memory access out of bounds for the backing region.
    OutOfBoundsAccess { reg: Reg, ptr_kind: &'static str, offset: i64, width: u8, region_size: i64 },
    /// Dereferenced a register that might be null.
    NullPointerDeref { reg: Reg, origin_pc: Option<usize>, origin_loc: Option<SourceLoc> },
    /// Dereferenced a register that doesn't hold a valid pointer.
    InvalidPointerDeref { reg: Reg, actual: String },
    /// Used an unknown or disallowed BPF helper.
    UnknownHelper { id: i32 },
    /// Helper argument has wrong type.
    InvalidHelperArg { helper: String, arg_index: usize, expected: String, actual: String },
    /// Programme exceeds the instruction complexity limit.
    ComplexityExceeded { limit: usize, visited: usize },
    /// Back-edge detected without a bounded loop proof.
    UnboundedLoop { target_pc: usize },
    /// Register used before being written.
    UninitRegRead { reg: Reg },
    /// ALU operation on a pointer that isn't allowed.
    InvalidPointerArith { reg: Reg, op: String },
    /// Division or modulo by zero.
    DivByZero { divisor_reg: Reg },
    /// Programme falls through without an exit instruction.
    FallThrough,
    /// Unknown/unsupported opcode.
    UnknownOpcode { raw: u8 },
    /// R0 is not a scalar at exit.
    InvalidReturnType { actual: String },
    /// Shift amount exceeds operand width.
    ShiftOverflow { width: u8, amount: u64 },
    /// Pointer leaked (returned in r0 or stored without proper spill).
    PtrLeak { reg: Reg, ptr_kind: String },
    /// R0 not written before exit.
    UninitReturn,
}

impl ErrorKind {
    /// Numeric code of the error kind (1..=17, one per variant).
    pub open spec fn code(self) -> u16 {
        match self {
            ErrorKind::UninitStackRead { .. } => 1,
            ErrorKind::OutOfBoundsAccess { .. } => 2,
            ErrorKind::NullPointerDeref { .. } => 3,
            ErrorKind::InvalidPointerDeref { .. } => 4,
            ErrorKind::UnknownHelper { .. } => 5,
            ErrorKind::InvalidHelperArg { .. } => 6,
            ErrorKind::ComplexityExceeded { .. } => 7,
            ErrorKind::UnboundedLoop { .. } => 8,
            ErrorKind::UninitRegRead { .. } => 9,
            ErrorKind::InvalidPointerArith { .. } => 10,
            ErrorKind::DivByZero { .. } => 11,
            ErrorKind::FallThrough => 12,
            ErrorKind::UnknownOpcode { .. } => 13,
            ErrorKind::InvalidReturnType { .. } => 14,
            ErrorKind::ShiftOverflow { .. } => 15,
            ErrorKind::PtrLeak { .. } => 16,
            ErrorKind::UninitReturn => 17,
        }
    }
}

/// Numeric error code for machine-parseable output.
pub fn error_code(kind: &ErrorKind) -> (c: u16)
    ensures
        c == kind.code(),
{
    match kind {
        ErrorKind::UninitStackRead { .. } => 1,
        ErrorKind::OutOfBoundsAccess { .. } => 2,
        ErrorKind::NullPointerDeref { .. } => 3,
        ErrorKind::InvalidPointerDeref { .. } => 4,
        ErrorKind::UnknownHelper { .. } => 5,
        ErrorKind::InvalidHelperArg { .. } => 6,
        ErrorKind::ComplexityExceeded { .. } => 7,
        ErrorKind::UnboundedLoop { .. } => 8,
        ErrorKind::UninitRegRead { .. } => 9,
        ErrorKind::InvalidPointerArith { .. } => 10,
        ErrorKind::DivByZero { .. } => 11,
        ErrorKind::FallThrough => 12,
        ErrorKind::UnknownOpcode { .. } => 13,
        ErrorKind::InvalidReturnType { .. } => 14,
        ErrorKind::ShiftOverflow { .. } => 15,
        ErrorKind::PtrLeak { .. } => 16,
        ErrorKind::UninitReturn => 17,
    }
}

/// An error kind with its texts taken as character sequences.
pub enum ErrorKindView {
    UninitStackRead { offset: i64, width: u8 },
    OutOfBoundsAccess { reg: Reg, ptr_kind: Seq<char>, offset: i64, width: u8, region_size: i64 },
    NullPointerDeref { reg: Reg, origin_pc: Option<usize>, origin_loc: Option<SourceLoc> },
    InvalidPointerDeref { reg: Reg, actual: Seq<char> },
    UnknownHelper { id: i32 },
    InvalidHelperArg { helper: Seq<char>, arg_index: usize, expected: Seq<char>, actual: Seq<char> },
    ComplexityExceeded { limit: usize, visited: usize },
    UnboundedLoop { target_pc: usize },
    UninitRegRead { reg: Reg },
    InvalidPointerArith { reg: Reg, op: Seq<char> },
    DivByZero { divisor_reg: Reg },
    FallThrough,
    UnknownOpcode { raw: u8 },
    InvalidReturnType { actual: Seq<char> },
    ShiftOverflow { width: u8, amount: u64 },
    PtrLeak { reg: Reg, ptr_kind: Seq<char> },
    UninitReturn,
}

impl View for ErrorKind {
    type V = ErrorKindView;

    open spec fn view(&self) -> ErrorKindView {
        match *self {
            ErrorKind::UninitStackRead { offset, width } => ErrorKindView::UninitStackRead { offset, width },
            ErrorKind::OutOfBoundsAccess { reg, ptr_kind, offset, width, region_size } =>
                ErrorKindView::OutOfBoundsAccess { reg, ptr_kind: ptr_kind@, offset, width, region_size },
            ErrorKind::NullPointerDeref { reg, origin_pc, origin_loc } =>
                ErrorKindView::NullPointerDeref { reg, origin_pc, origin_loc },
            ErrorKind::InvalidPointerDeref { reg, actual } => ErrorKindView::InvalidPointerDeref { reg, actual: actual@ },
            ErrorKind::UnknownHelper { id } => ErrorKindView::UnknownHelper { id },
            ErrorKind::InvalidHelperArg { helper, arg_index, expected, actual } => ErrorKindView::InvalidHelperArg {
                helper: helper@, arg_index, expected: expected@, actual: actual@ },
            ErrorKind::ComplexityExceeded { limit, visited } => ErrorKindView::ComplexityExceeded { limit, visited },
            ErrorKind::UnboundedLoop { target_pc } => ErrorKindView::UnboundedLoop { target_pc },
            ErrorKind::UninitRegRead { reg } => ErrorKindView::UninitRegRead { reg },
            ErrorKind::InvalidPointerArith { reg, op } => ErrorKindView::InvalidPointerArith { reg, op: op@ },
            ErrorKind::DivByZero { divisor_reg } => ErrorKindView::DivByZero { divisor_reg },
            ErrorKind::FallThrough => ErrorKindView::FallThrough,
            ErrorKind::UnknownOpcode { raw } => ErrorKindView::UnknownOpcode { raw },
            ErrorKind::InvalidReturnType { actual } => ErrorKindView::InvalidReturnType { actual: actual@ },
            ErrorKind::ShiftOverflow { width, amount } => ErrorKindView::ShiftOverflow { width, amount },
            ErrorKind::PtrLeak { reg, ptr_kind } => ErrorKindView::PtrLeak { reg, ptr_kind: ptr_kind@ },
            ErrorKind::UninitReturn => ErrorKindView::UninitReturn,
        }
    }
}

/// A verification error with its kind taken by its view.
pub struct ErrorView {
    pub pc: usize,
    pub kind: ErrorKindView,
    pub source_loc: Option<SourceLoc>,
}

impl View for VerifyError {
    type V = ErrorView;

    open spec fn view(&self) -> ErrorView {
        ErrorView { pc: self.pc, kind: self.kind@, source_loc: self.source_loc }
    }
}

/// The error of kind `kind` at `pc`, located at `loc`.
pub open spec fn error_at(pc: usize, loc: Option<&SourceLoc>, kind: ErrorKindView) -> ErrorView {
    ErrorView { pc, kind, source_loc: opt_loc(loc) }
}

/// The view of an optional error.
pub open spec fn opt_error(e: Option<VerifyError>) -> Option<ErrorView> {
    match e {
        Some(e) => Some(e@),
        None => None,
    }
}

/// The source location for an instruction: `loc` if given, else none.
pub open spec fn opt_loc(loc: Option<&SourceLoc>) -> Option<SourceLoc> {
    match loc {
        Some(l) => Some(*l),
        None => None,
    }
}

impl VerifyError {
    pub fn new(pc: usize, kind: ErrorKind) -> (e: Self)
        ensures
            e == (VerifyError { pc, kind, source_loc: None }),
    {
        Self { pc, kind, source_loc: None }
    }

    /// Attach a source location (a copy of `loc`).
    pub fn with_source(self, loc: Option<&SourceLoc>) -> (e: Self)
        ensures
            e == (VerifyError { source_loc: opt_loc(loc), ..self }),
    {
        let source_loc = match loc {
            Some(l) => Some(l.dup()),
            None => None,
        };
        VerifyError { pc: self.pc, kind: self.kind, source_loc }
    }
}

impl ErrorKind {
    /// A copy of this kind.
    pub fn dup(&self) -> (r: ErrorKind)
        ensures
            r == *self,
    {
        match self {
            ErrorKind::UninitStackRead { offset, width } => ErrorKind::UninitStackRead { offset: *offset, width: *width },
            ErrorKind::OutOfBoundsAccess { reg, ptr_kind, offset, width, region_size } => ErrorKind::OutOfBoundsAccess {
                reg: *reg, ptr_kind: *ptr_kind, offset: *offset, width: *width, region_size: *region_size },
            ErrorKind::NullPointerDeref { reg, origin_pc, origin_loc } => ErrorKind::NullPointerDeref {
                reg: *reg,
                origin_pc: *origin_pc,
                origin_loc: match origin_loc { Some(l) => Some(l.dup()), None => None },
            },
            ErrorKind::InvalidPointerDeref { reg, actual } => ErrorKind::InvalidPointerDeref { reg: *reg, actual: actual.clone() },
            ErrorKind::UnknownHelper { id } => ErrorKind::UnknownHelper { id: *id },
            ErrorKind::InvalidHelperArg { helper, arg_index, expected, actual } => ErrorKind::InvalidHelperArg {
                helper: helper.clone(), arg_index: *arg_index, expected: expected.clone(), actual: actual.clone() },
            ErrorKind::ComplexityExceeded { limit, visited } => ErrorKind::ComplexityExceeded { limit: *limit, visited: *visited },
            ErrorKind::UnboundedLoop { target_pc } => ErrorKind::UnboundedLoop { target_pc: *target_pc },
            ErrorKind::UninitRegRead { reg } => ErrorKind::UninitRegRead { reg: *reg },
            ErrorKind::InvalidPointerArith { reg, op } => ErrorKind::InvalidPointerArith { reg: *reg, op: op.clone() },
            ErrorKind::DivByZero { divisor_reg } => ErrorKind::DivByZero { divisor_reg: *divisor_reg },
            ErrorKind::FallThrough => ErrorKind::FallThrough,
            ErrorKind::UnknownOpcode { raw } => ErrorKind::UnknownOpcode { raw: *raw },
            ErrorKind::InvalidReturnType { actual } => ErrorKind::InvalidReturnType { actual: actual.clone() },
            ErrorKind::ShiftOverflow { width, amount } => ErrorKind::ShiftOverflow { width: *width, amount: *amount },
            ErrorKind::PtrLeak { reg, ptr_kind } => ErrorKind::PtrLeak { reg: *reg, ptr_kind: ptr_kind.clone() },
            ErrorKind::UninitReturn => ErrorKind::UninitReturn,
        }
    }
}

impl VerifyError {
    /// A copy of this error.
    pub fn dup(&self) -> (r: VerifyError)
        ensures
            r == *self,
    {
        VerifyError {
            pc: self.pc,
            kind: self.kind.dup(),
            source_loc: match &self.source_loc { Some(l) => Some(l.dup()), None => None },
        }
    }
}

/// The description of an error kind.
pub open spec fn kind_message(k: ErrorKindView) -> Seq<char> {
    match k {
        ErrorKindView::UninitStackRead { offset, width } =>
            "read of "@ + dec_nat(width as nat) + "B from uninitialised stack [fp"@ + signed_text(offset as int) + "]"@,
        ErrorKindView::OutOfBoundsAccess { reg, ptr_kind, offset, width, region_size } =>
            ptr_kind + " access via "@ + reg.text() + " at offset "@ + dec_int(offset as int) + " width "@
                + dec_nat(width as nat) + " is out of bounds (region size "@ + dec_int(region_size as int) + ")"@,
        ErrorKindView::NullPointerDeref { reg, origin_pc, origin_loc } =>
            "dereference of "@ + reg.text() + " which may be null"@ + match origin_loc {
                Some(l) => " (returned from helper at "@ + l.file@ + ":"@ + dec_nat(l.line as nat) + ")"@,
                None => match origin_pc {
                    Some(p) => " (returned from helper at insn #"@ + dec_nat(p as nat) + ")"@,
                    None => Seq::empty(),
                },
            },
        ErrorKindView::InvalidPointerDeref { reg, actual } => reg.text() + " holds "@ + actual + ", not a dereferenceable pointer"@,
        ErrorKindView::UnknownHelper { id } => "call to unknown helper #"@ + dec_int(id as int),
        ErrorKindView::InvalidHelperArg { helper, arg_index, expected, actual } =>
            helper + "(): arg "@ + dec_nat(arg_index as nat) + " must be "@ + expected + ", got "@ + actual,
        ErrorKindView::ComplexityExceeded { limit, visited } =>
            "programme too complex: visited "@ + dec_nat(visited as nat) + " states, limit is "@ + dec_nat(limit as nat),
        ErrorKindView::UnboundedLoop { target_pc } => "back-edge to insn #"@ + dec_nat(target_pc as nat) + " creates an unbounded loop"@,
        ErrorKindView::UninitRegRead { reg } => "read of "@ + reg.text() + " before initialisation"@,
        ErrorKindView::InvalidPointerArith { reg, op } => op + " on "@ + reg.text() + " is not a valid pointer operation"@,
        ErrorKindView::DivByZero { divisor_reg } => "division by "@ + divisor_reg.text() + " which may be zero"@,
        ErrorKindView::FallThrough => "programme does not terminate with an exit instruction"@,
        ErrorKindView::UnknownOpcode { raw } => "unknown opcode 0x"@ + hex_byte(raw),
        ErrorKindView::InvalidReturnType { actual } => "r0 at exit holds "@ + actual + ", must be a scalar"@,
        ErrorKindView::ShiftOverflow { width, amount } =>
            "shift by "@ + dec_nat(amount as nat) + " exceeds "@ + dec_nat(width as nat) + "-bit width"@,
        ErrorKindView::PtrLeak { reg, ptr_kind } => ptr_kind + " pointer in "@ + reg.text() + " would leak to userspace"@,
        ErrorKindView::UninitReturn => "r0 not written before exit"@,
    }
}

/// The one-line label of an error kind for source annotations.
pub open spec fn label_text(k: ErrorKindView) -> Seq<char> {
    match k {
        ErrorKindView::UninitStackRead { .. } => "uninitialised stack read"@,
        ErrorKindView::OutOfBoundsAccess { ptr_kind, .. } => "out-of-bounds "@ + ptr_kind + " access"@,
        ErrorKindView::NullPointerDeref { reg, .. } => reg.text() + " may be null here"@,
        ErrorKindView::InvalidPointerDeref { reg, actual } => reg.text() + " is "@ + actual,
        ErrorKindView::UnknownHelper { id } => "unknown helper #"@ + dec_int(id as int),
        ErrorKindView::InvalidHelperArg { helper, arg_index, expected, .. } =>
            helper + " arg"@ + dec_nat(arg_index as nat) + " needs "@ + expected,
        ErrorKindView::ComplexityExceeded { .. } => "complexity limit hit"@,
        ErrorKindView::UnboundedLoop { .. } => "unbounded loop"@,
        ErrorKindView::UninitRegRead { reg } => reg.text() + " uninitialised"@,
        ErrorKindView::InvalidPointerArith { op, .. } => "invalid: "@ + op + " on pointer"@,
        ErrorKindView::DivByZero { .. } => "divisor may be zero"@,
        ErrorKindView::FallThrough => "missing exit"@,
        ErrorKindView::UnknownOpcode { raw } => "unknown opcode 0x"@ + hex_byte(raw),
        ErrorKindView::InvalidReturnType { actual } => "r0 is "@ + actual + ", not scalar"@,
        ErrorKindView::ShiftOverflow { amount, .. } => "shift by "@ + dec_nat(amount as nat) + " overflows"@,
        ErrorKindView::PtrLeak { ptr_kind, .. } => ptr_kind + " pointer leaked"@,
        ErrorKindView::UninitReturn => "r0 not set"@,
    }
}

/// The description of an error: the source location when known, the
/// instruction and the kind's description.
pub open spec fn error_message(e: ErrorView) -> Seq<char> {
    (match e.source_loc {
        Some(l) => l.file@ + ":"@ + dec_nat(l.line as nat) + ": "@,
        None => Seq::empty(),
    }) + "insn #"@ + dec_nat(e.pc as nat) + ": "@ + kind_message(e.kind)
}

impl ErrorKind {
    fn push_location_message(&self, s: &mut String)
        requires
            self is NullPointerDeref || self is OutOfBoundsAccess || self is UninitStackRead,
        ensures
            final(s)@ == old(s)@ + kind_message(self@),
    {
        match self {
            ErrorKind::UninitStackRead { offset, width } => {
                push_str(s, "read of ");
                push_dec_u64(s, *width as u64);
                push_str(s, "B from uninitialised stack [fp");
                push_signed(s, *offset);
                push_str(s, "]");
            },
            ErrorKind::OutOfBoundsAccess { reg, ptr_kind, offset, width, region_size } => {
                push_str(s, ptr_kind);
                push_str(s, " access via ");
                reg.push_text(s);
                push_str(s, " at offset ");
                push_dec_i64(s, *offset);
                push_str(s, " width ");
                push_dec_u64(s, *width as u64);
                push_str(s, " is out of bounds (region size ");
                push_dec_i64(s, *region_size);
                push_str(s, ")");
            },
            ErrorKind::NullPointerDeref { reg, origin_pc, origin_loc } => {
                push_str(s, "dereference of ");
                reg.push_text(s);
                push_str(s, " which may be null");
                let ghost mid = s@;
                match origin_loc {
                    Some(l) => {
                        push_str(s, " (returned from helper at ");
                        push_str(s, l.file.as_str());
                        push_str(s, ":");
                        push_dec_u64(s, l.line as u64);
                        push_str(s, ")");
                    },
                    None => match origin_pc {
                        Some(p) => {
                            push_str(s, " (returned from helper at insn #");
                            push_dec_u64(s, *p as u64);
                            push_str(s, ")");
                        },
                        None => {
                            assert(s@ =~= mid + Seq::<char>::empty());
                        },
                    },
                }
            },
            _ => {},
        }
        assert(final(s)@ =~= old(s)@ + kind_message(self@));
    }

    /// Appends the description of the kind (see `kind_message`).
    #[verifier::rlimit(40)]
    pub fn push_message(&self, s: &mut String)
        ensures
            final(s)@ == old(s)@ + kind_message(self@),
    {
        match self {
            ErrorKind::UninitStackRead { .. } | ErrorKind::OutOfBoundsAccess { .. } | ErrorKind::NullPointerDeref { .. } => {
                self.push_location_message(s);
            },
            ErrorKind::InvalidPointerDeref { reg, actual } => {
                reg.push_text(s);
                push_str(s, " holds ");
                push_str(s, actual.as_str());
                push_str(s, ", not a dereferenceable pointer");
            },
            ErrorKind::UnknownHelper { id } => {
                push_str(s, "call to unknown helper #");
                push_dec_i64(s, *id as i64);
            },
            ErrorKind::InvalidHelperArg { helper, arg_index, expected, actual } => {
                push_str(s, helper.as_str());
                push_str(s, "(): arg ");
                push_dec_u64(s, *arg_index as u64);
                push_str(s, " must be ");
                push_str(s, expected.as_str());
                push_str(s, ", got ");
                push_str(s, actual.as_str());
            },
            ErrorKind::ComplexityExceeded { limit, visited } => {
                push_str(s, "programme too complex: visited ");
                push_dec_u64(s, *visited as u64);
                push_str(s, " states, limit is ");
                push_dec_u64(s, *limit as u64);
            },
            ErrorKind::UnboundedLoop { target_pc } => {
                push_str(s, "back-edge to insn #");
                push_dec_u64(s, *target_pc as u64);
                push_str(s, " creates an unbounded loop");
            },
            ErrorKind::UninitRegRead { reg } => {
                push_str(s, "read of ");
                reg.push_text(s);
                push_str(s, " before initialisation");
            },
            ErrorKind::InvalidPointerArith { reg, op } => {
                push_str(s, op.as_str());
                push_str(s, " on ");
                reg.push_text(s);
                push_str(s, " is not a valid pointer operation");
            },
            ErrorKind::DivByZero { divisor_reg } => {
                push_str(s, "division by ");
                divisor_reg.push_text(s);
                push_str(s, " which may be zero");
            },
            ErrorKind::FallThrough => push_str(s, "programme does not terminate with an exit instruction"),
            ErrorKind::UnknownOpcode { raw } => {
                push_str(s, "unknown opcode 0x");
                push_hex_byte(s, *raw);
            },
            ErrorKind::InvalidReturnType { actual } => {
                push_str(s, "r0 at exit holds ");
                push_str(s, actual.as_str());
                push_str(s, ", must be a scalar");
            },
            ErrorKind::ShiftOverflow { width, amount } => {
                push_str(s, "shift by ");
                push_dec_u64(s, *amount);
                push_str(s, " exceeds ");
                push_dec_u64(s, *width as u64);
                push_str(s, "-bit width");
            },
            ErrorKind::PtrLeak { reg, ptr_kind } => {
                push_str(s, ptr_kind.as_str());
                push_str(s, " pointer in ");
                reg.push_text(s);
                push_str(s, " would leak to userspace");
            },
            ErrorKind::UninitReturn => push_str(s, "r0 not written before exit"),
        }
        assert(final(s)@ =~= old(s)@ + kind_message(self@));
    }

    /// The description of the kind (see `kind_message`).
    pub fn message(&self) -> (m: String)
        ensures
            m@ == kind_message(self@),
    {
        let mut s = String::new();
        self.push_message(&mut s);
        assert(s@ =~= kind_message(self@));
        s
    }
}

/// Short label for source annotations: one line, no full sentence.
#[verifier::rlimit(40)]
pub fn short_label(kind: &ErrorKind) -> (l: String)
    ensures
        l@ == label_text(kind@),
{
    let mut s = String::new();
    match kind {
        ErrorKind::UninitStackRead { .. } => push_str(&mut s, "uninitialised stack read"),
        ErrorKind::OutOfBoundsAccess { ptr_kind, .. } => {
            push_str(&mut s, "out-of-bounds ");
            push_str(&mut s, ptr_kind);
            push_str(&mut s, " access");
        },
        ErrorKind::NullPointerDeref { reg, .. } => {
            reg.push_text(&mut s);
            push_str(&mut s, " may be null here");
        },
        ErrorKind::InvalidPointerDeref { reg, actual } => {
            reg.push_text(&mut s);
            push_str(&mut s, " is ");
            push_str(&mut s, actual.as_str());
        },
        ErrorKind::UnknownHelper { id } => {
            push_str(&mut s, "unknown helper #");
            push_dec_i64(&mut s, *id as i64);
        },
        ErrorKind::InvalidHelperArg { helper, arg_index, expected, .. } => {
            push_str(&mut s, helper.as_str());
            push_str(&mut s, " arg");
            push_dec_u64(&mut s, *arg_index as u64);
            push_str(&mut s, " needs ");
            push_str(&mut s, expected.as_str());
        },
        ErrorKind::ComplexityExceeded { .. } => push_str(&mut s, "complexity limit hit"),
        ErrorKind::UnboundedLoop { .. } => push_str(&mut s, "unbounded loop"),
        ErrorKind::UninitRegRead { reg } => {
            reg.push_text(&mut s);
            push_str(&mut s, " uninitialised");
        },
        ErrorKind::InvalidPointerArith { op, .. } => {
            push_str(&mut s, "invalid: ");
            push_str(&mut s, op.as_str());
            push_str(&mut s, " on pointer");
        },
        ErrorKind::DivByZero { .. } => push_str(&mut s, "divisor may be zero"),
        ErrorKind::FallThrough => push_str(&mut s, "missing exit"),
        ErrorKind::UnknownOpcode { raw } => {
            push_str(&mut s, "unknown opcode 0x");
            push_hex_byte(&mut s, *raw);
        },
        ErrorKind::InvalidReturnType { actual } => {
            push_str(&mut s, "r0 is ");
            push_str(&mut s, actual.as_str());
            push_str(&mut s, ", not scalar");
        },
        ErrorKind::ShiftOverflow { amount, .. } => {
            push_str(&mut s, "shift by ");
            push_dec_u64(&mut s, *amount);
            push_str(&mut s, " overflows");
        },
        ErrorKind::PtrLeak { ptr_kind, .. } => {
            push_str(&mut s, ptr_kind.as_str());
            push_str(&mut s, " pointer leaked");
        },
        ErrorKind::UninitReturn => push_str(&mut s, "r0 not set"),
    }
    assert(s@ =~= label_text(kind@));
    s
}

impl VerifyError {
    /// The description of the error (see `error_message`).
    pub fn message(&self) -> (m: String)
        ensures
            m@ == error_message(self@),
    {
        let mut s = String::new();
        match &self.source_loc {
            Some(l) => {
                push_str(&mut s, l.file.as_str());
                push_str(&mut s, ":");
                push_dec_u64(&mut s, l.line as u64);
                push_str(&mut s, ": ");
            },
            None => {},
        }
        let ghost head = s@;
        push_str(&mut s, "insn #");
        push_dec_u64(&mut s, self.pc as u64);
        push_str(&mut s, ": ");
        self.kind.push_message(&mut s);
        assert(s@ =~= error_message(self@));
        s
    }
}

/// The location an error points at: its own, else that of its
/// instruction.
pub open spec fn error_loc(e: ErrorView, locs: Seq<Option<SourceLoc>>) -> Option<SourceLoc> {
    match e.source_loc {
        Some(l) => Some(l),
        None => if e.pc < locs.len() { locs[e.pc as int] } else { None },
    }
}

/// The text of the source at `path`, from entry `i` on: that of the first
/// entry for the path.
pub open spec fn source_from(srcs: Seq<(String, String)>, path: Seq<char>, i: int) -> Option<Seq<char>>
    decreases srcs.len() - i,
{
    if i < 0 || i >= srcs.len() {
        None
    } else if srcs[i].0@ == path {
        Some(srcs[i].1@)
    } else {
        source_from(srcs, path, i + 1)
    }
}

/// The text of the source at `path` (see `source_from`). The sources are
/// pairs of a path and its text; where a path occurs more than once, the
/// first pair for it is the one that counts.
pub open spec fn source_of(srcs: Seq<(String, String)>, path: Seq<char>) -> Option<Seq<char>> {
    source_from(srcs, path, 0)
}

/// `s` padded with `0`s in front to four characters.
pub open spec fn pad4(s: Seq<char>) -> Seq<char> {
    if s.len() < 4 { Seq::new((4 - s.len()) as nat, |i: int| '0') + s } else { s }
}

/// The plain report of an error: its code and message, its instruction,
/// and the location where there is one.
pub open spec fn plain_report(e: ErrorView, code: u16, loc: Option<SourceLoc>) -> Seq<char> {
    "error[E"@ + pad4(dec_nat(code as nat)) + "]: "@ + kind_message(e.kind) + "\n"@ + "  --> insn #"@ + dec_nat(
        e.pc as nat,
    ) + "\n"@ + match loc {
        Some(l) => "  = source: "@ + l.file@ + ":"@ + dec_nat(l.line as nat) + "\n"@,
        None => Seq::empty(),
    } + "\n"@
}

/// The colour of a label of a drawn error report.
pub enum Hue {
    Red,
    Yellow,
}

/// A label of a drawn error report: a range of a source, its message and
/// colour.
pub struct ErrorLabel {
    pub source: String,
    pub start: usize,
    pub end: usize,
    pub message: String,
    pub hue: Hue,
}

/// A drawn error report: the message, the range it points at, its labels,
/// the note under it, and the sources by name.
pub struct ErrorDrawing {
    pub message: String,
    pub path: String,
    pub start: usize,
    pub end: usize,
    pub labels: Vec<ErrorLabel>,
    pub note: String,
    pub texts: Vec<(String, String)>,
}

/// How an error is reported: as plain text, or drawn over its source.
pub enum ErrorReport {
    Plain(String),
    Drawn(ErrorDrawing),
}

/// A label by its source name, range, message and colour.
pub open spec fn error_label_view(l: ErrorLabel) -> (Seq<char>, nat, nat, Seq<char>, Hue) {
    (l.source@, l.start as nat, l.end as nat, l.message@, l.hue)
}

/// A drawn report with its texts as character sequences.
pub struct DrawingView {
    pub message: Seq<char>,
    pub path: Seq<char>,
    pub start: nat,
    pub end: nat,
    pub labels: Seq<(Seq<char>, nat, nat, Seq<char>, Hue)>,
    pub note: Seq<char>,
    pub texts: Seq<(Seq<char>, Seq<char>)>,
}

/// An error report with its texts as character sequences.
pub enum ReportView {
    Plain(Seq<char>),
    Drawn(DrawingView),
}

impl View for ErrorReport {
    type V = ReportView;

    open spec fn view(&self) -> ReportView {
        match self {
            ErrorReport::Plain(t) => ReportView::Plain(t@),
            ErrorReport::Drawn(d) => ReportView::Drawn(
                DrawingView {
                    message: d.message@,
                    path: d.path@,
                    start: d.start as nat,
                    end: d.end as nat,
                    labels: d.labels@.map_values(|l: ErrorLabel| error_label_view(l)),
                    note: d.note@,
                    texts: d.texts@.map_values(|t: (String, String)| (t.0@, t.1@)),
                },
            ),
        }
    }
}

/// Where a null dereference names the call whose result may be null and
/// its source is there: that source's path, text and the marked line.
pub open spec fn origin_of(e: ErrorView, srcs: Seq<(String, String)>) -> Option<(Seq<char>, Seq<char>, nat, nat)> {
    match e.kind {
        ErrorKindView::NullPointerDeref { origin_loc: Some(o), .. } => match source_of(srcs, o.path@) {
            Some(t) => match line_range(t, o.line as usize) {
                Some((a, b, _l)) => Some((o.path@, t, a, b)),
                None => None,
            },
            None => None,
        },
        _ => None,
    }
}

/// Whether the report of `e` can be drawn where it is drawn: the lines it
/// marks can be cut out of their sources.
pub open spec fn error_drawable(e: ErrorView, locs: Seq<Option<SourceLoc>>, srcs: Seq<(String, String)>) -> bool {
    &&& error_loc(e, locs) matches Some(l) ==> (source_of(srcs, l.path@) matches Some(t) ==> line_markable(
        t,
        l.line as usize,
    ))
    &&& e.kind matches ErrorKindView::NullPointerDeref { origin_loc: Some(o), .. } ==> (source_of(
        srcs,
        o.path@,
    ) matches Some(t) ==> line_markable(t, o.line as usize))
}

/// The report of an error: drawn over the C source where its location's
/// source is there (with the line that returned a possibly-null pointer
/// marked too, where it is known), else plain.
pub open spec fn error_report_of(e: ErrorView, code: u16, locs: Seq<Option<SourceLoc>>, srcs: Seq<(String, String)>) -> ReportView {
    match error_loc(e, locs) {
        Some(l) => match source_of(srcs, l.path@) {
            Some(t) => match line_range(t, l.line as usize) {
                Some((a, b, _line)) => ReportView::Drawn(
                    DrawingView {
                        message: kind_message(e.kind),
                        path: l.path@,
                        start: a,
                        end: b,
                        labels: seq![(l.path@, a, b, label_text(e.kind), Hue::Red)] + match origin_of(e, srcs) {
                            Some((op, _ot, oa, ob)) => seq![
                                (op, oa, ob, "returns a possibly-null pointer"@, Hue::Yellow),
                            ],
                            None => Seq::empty(),
                        },
                        note: "insn #"@ + dec_nat(e.pc as nat),
                        texts: seq![(l.path@, t)] + match origin_of(e, srcs) {
                            Some((op, ot, _oa, _ob)) => seq![(op, ot)],
                            None => Seq::empty(),
                        },
                    },
                ),
                None => ReportView::Plain(plain_report(e, code, Some(l))),
            },
            None => ReportView::Plain(plain_report(e, code, Some(l))),
        },
        None => ReportView::Plain(plain_report(e, code, None)),
    }
}

/// The text of the source at `path` (see `source_of`).
fn find_source<'a>(srcs: &'a [(String, String)], path: &str) -> (r: Option<&'a String>)
    ensures
        match r {
            Some(t) => source_of(srcs@, path@) == Some(t@),
            None => source_of(srcs@, path@) is None,
        },
{
    let mut i: usize = 0;
    while i < srcs.len()
        invariant
            i <= srcs@.len(),
            source_of(srcs@, path@) == source_from(srcs@, path@, i as int),
        decreases srcs@.len() - i,
    {
        if str_eq(srcs[i].0.as_str(), path) {
            return Some(&srcs[i].1);
        }
        i = i + 1;
    }
    None
}

/// The plain report of an error (see `plain_report`).
fn plain_report_of(e: &VerifyError, loc: Option<&SourceLoc>) -> (r: String)
    ensures
        r@ == plain_report(e@, e.kind.code(), opt_loc(loc)),
{
    let mut s = "error[E".to_string();
    let code = error_code(&e.kind);
    let mut digits = String::new();
    push_dec_u64(&mut digits, code as u64);
    let dc = chars_of(digits.as_str());
    let mut k = dc.len();
    while k < 4
        invariant
            dc@ == dec_nat(code as nat),
            dc@.len() <= k <= 4 || (k == dc@.len() && k >= 4),
            s@ == "error[E"@ + Seq::new((k - dc@.len()) as nat, |i: int| '0'),
        decreases 4 - k,
    {
        push_char(&mut s, '0');
        assert(Seq::new((k + 1 - dc@.len()) as nat, |i: int| '0') =~= Seq::new(
            (k - dc@.len()) as nat,
            |i: int| '0',
        ).push('0'));
        k = k + 1;
    }
    push_str(&mut s, digits.as_str());
    assert(s@ =~= "error[E"@ + pad4(dec_nat(code as nat)));
    push_str(&mut s, "]: ");
    e.kind.push_message(&mut s);
    push_str(&mut s, "\n  --> insn #");
    push_dec_u64(&mut s, e.pc as u64);
    push_str(&mut s, "\n");
    let ghost head = s@;
    match loc {
        Some(l) => {
            push_str(&mut s, "  = source: ");
            push_str(&mut s, l.file.as_str());
            push_str(&mut s, ":");
            push_dec_u64(&mut s, l.line as u64);
            push_str(&mut s, "\n");
        },
        None => {},
    }
    push_str(&mut s, "\n");
    proof {
        reveal_strlit("\n  --> insn #");
        reveal_strlit("  --> insn #");
        reveal_strlit("\n");
    }
    assert(s@ =~= plain_report(e@, e.kind.code(), opt_loc(loc)));
    s
}

/// The location an error points at (see `error_loc`).
fn error_loc_of<'a>(e: &'a VerifyError, locs: &'a [Option<SourceLoc>]) -> (r: Option<&'a SourceLoc>)
    ensures
        opt_loc(r) == error_loc(e@, locs@),
{
    match &e.source_loc {
        Some(l) => Some(l),
        None => if e.pc < locs.len() {
            match &locs[e.pc] {
                Some(l) => Some(l),
                None => None,
            }
        } else {
            None
        },
    }
}

/// The report of an error (see `error_report_of`).
pub fn error_report(e: &VerifyError, locs: &[Option<SourceLoc>], srcs: &[(String, String)]) -> (r: ErrorReport)
    requires
        error_drawable(e@, locs@, srcs@),
    ensures
        r@ == error_report_of(e@, e.kind.code(), locs@, srcs@),
{
    let loc = error_loc_of(e, locs);
    let l = match loc {
        Some(l) => l,
        None => return ErrorReport::Plain(plain_report_of(e, None)),
    };
    let t = match find_source(srcs, l.path.as_str()) {
        Some(t) => t,
        None => return ErrorReport::Plain(plain_report_of(e, Some(l))),
    };
    let tc = chars_of(t.as_str());
    let (a, b, _line) = mark_line(t.as_str(), tc.as_slice(), l.line as usize);
    let mut labels: Vec<ErrorLabel> = Vec::new();
    labels.push(ErrorLabel { source: l.path.clone(), start: a, end: b, message: short_label(&e.kind), hue: Hue::Red });
    let mut texts: Vec<(String, String)> = Vec::new();
    texts.push((l.path.clone(), t.clone()));
    let ghost first_labels = labels@.map_values(|l: ErrorLabel| error_label_view(l));
    let ghost first_texts = texts@.map_values(|t: (String, String)| (t.0@, t.1@));
    match &e.kind {
        ErrorKind::NullPointerDeref { origin_loc: Some(o), .. } => {
            match find_source(srcs, o.path.as_str()) {
                Some(ot) => {
                    let oc = chars_of(ot.as_str());
                    let (oa, ob, _ol) = mark_line(ot.as_str(), oc.as_slice(), o.line as usize);
                    labels.push(
                        ErrorLabel {
                            source: o.path.clone(),
                            start: oa,
                            end: ob,
                            message: "returns a possibly-null pointer".to_string(),
                            hue: Hue::Yellow,
                        },
                    );
                    texts.push((o.path.clone(), ot.clone()));
                },
                None => {},
            }
        },
        _ => {},
    }
    let mut note = "insn #".to_string();
    push_dec_u64(&mut note, e.pc as u64);
    let d = ErrorDrawing { message: e.kind.message(), path: l.path.clone(), start: a, end: b, labels, note, texts };
    let r = ErrorReport::Drawn(d);
    proof {
        let want = error_report_of(e@, e.kind.code(), locs@, srcs@);
        assert(want matches ReportView::Drawn(w) && r@ matches ReportView::Drawn(g) && {
            &&& g.labels =~= w.labels
            &&& g.texts =~= w.texts
        });
    }
    r
}

/// Whether the report of `e` can be drawn (see `error_drawable`).
pub fn error_can_draw(e: &VerifyError, locs: &[Option<SourceLoc>], srcs: &[(String, String)]) -> (b: bool)
    ensures
        b == error_drawable(e@, locs@, srcs@),
{
    let first = match error_loc_of(e, locs) {
        Some(l) => match find_source(srcs, l.path.as_str()) {
            Some(t) => is_markable(chars_of(t.as_str()).as_slice(), l.line as usize),
            None => true,
        },
        None => true,
    };
    let second = match &e.kind {
        ErrorKind::NullPointerDeref { origin_loc: Some(o), .. } => match find_source(srcs, o.path.as_str()) {
            Some(t) => is_markable(chars_of(t.as_str()).as_slice(), o.line as usize),
            None => true,
        },
        _ => true,
    };
    first && second
}

/// Whether the reports of all the errors can be drawn.
pub fn can_format_errors(errors: &[VerifyError], locs: &[Option<SourceLoc>], srcs: &[(String, String)]) -> (b: bool)
    ensures
        b == forall|i: int| 0 <= i < errors@.len() ==> error_drawable((#[trigger] errors@[i])@, locs@, srcs@),
{
    let mut i: usize = 0;
    while i < errors.len()
        invariant
            i <= errors@.len(),
            forall|k: int| 0 <= k < i ==> error_drawable((#[trigger] errors@[k])@, locs@, srcs@),
        decreases errors@.len() - i,
    {
        if !error_can_draw(&errors[i], locs, srcs) {
            return false;
        }
        i = i + 1;
    }
    true
}

/// The plain reports of the errors, joined; `None` where one of them is
/// drawn.
pub open spec fn plain_reports(errors: Seq<VerifyError>, locs: Seq<Option<SourceLoc>>, srcs: Seq<(String, String)>) -> Option<Seq<char>>
    decreases errors.len(),
{
    if errors.len() == 0 {
        Some(Seq::empty())
    } else {
        match (
            plain_reports(errors.drop_last(), locs, srcs),
            error_report_of(errors.last()@, errors.last().kind.code(), locs, srcs),
        ) {
            (Some(head), ReportView::Plain(t)) => Some(head + t),
            _ => None,
        }
    }
}

/// Texts one after another.
pub open spec fn joined(parts: Seq<Seq<char>>) -> Seq<char>
    decreases parts.len(),
{
    if parts.len() == 0 {
        Seq::empty()
    } else {
        joined(parts.drop_last()) + parts.last()
    }
}

/// Whether `text` is what the report `r` puts out: a plain report its
/// text; a drawn one a text that opens with the error header carrying its
/// message, its tag coloured or not.
pub open spec fn shows_report(r: ReportView, text: Seq<char>) -> bool {
    match r {
        ReportView::Plain(t) => text == t,
        ReportView::Drawn(d) => exists|coloured: bool| report_header(d.message, coloured).is_prefix_of(text),
    }
}

/// Every label of a drawn report runs forwards: each is a line's range.
proof fn lemma_error_labels_forward(e: ErrorView, code: u16, locs: Seq<Option<SourceLoc>>, srcs: Seq<(String, String)>)
    ensures
        error_report_of(e, code, locs, srcs) matches ReportView::Drawn(w) ==> forall|i: int|
            0 <= i < w.labels.len() ==> (#[trigger] w.labels[i]).1 <= w.labels[i].2,
{
}

/// The reports of the errors, one after another: each plain one as its
/// text (see `error_report`), each drawn one as ariadne draws it, opening
/// with the error header and its message. Where every report is plain, the
/// output is exactly their text; with no errors it is empty. A source is
/// looked up by its path, the first pair with that path giving its text.
pub fn format_errors(errors: &[VerifyError], source_locs: &[Option<SourceLoc>], c_sources: &[(String, String)]) -> (out: String)
    requires
        forall|i: int| 0 <= i < errors@.len() ==> error_drawable((#[trigger] errors@[i])@, source_locs@, c_sources@),
    ensures
        exists|parts: Seq<Seq<char>>|
            {
                &&& parts.len() == errors@.len()
                &&& out@ == joined(parts)
                &&& forall|i: int|
                    0 <= i < parts.len() ==> shows_report(
                        error_report_of(errors@[i]@, errors@[i].kind.code(), source_locs@, c_sources@),
                        #[trigger] parts[i],
                    )
            },
        plain_reports(errors@, source_locs@, c_sources@) matches Some(t) ==> out@ == t,
{
    let mut out = String::new();
    let mut i: usize = 0;
    let ghost mut parts: Seq<Seq<char>> = Seq::empty();
    assert(errors@.take(0) =~= Seq::<VerifyError>::empty());
    while i < errors.len()
        invariant
            i <= errors@.len(),
            forall|k: int| 0 <= k < errors@.len() ==> error_drawable((#[trigger] errors@[k])@, source_locs@, c_sources@),
            plain_reports(errors@.take(i as int), source_locs@, c_sources@) matches Some(t) ==> out@ == t,
            parts.len() == i,
            out@ == joined(parts),
            forall|k: int|
                0 <= k < parts.len() ==> shows_report(
                    error_report_of(errors@[k]@, errors@[k].kind.code(), source_locs@, c_sources@),
                    #[trigger] parts[k],
                ),
        decreases errors@.len() - i,
    {
        assert(errors@.take(i + 1).drop_last() =~= errors@.take(i as int));
        assert(errors@.take(i + 1).last() == errors@[i as int]);
        let ghost want = error_report_of(errors@[i as int]@, errors@[i as int].kind.code(), source_locs@, c_sources@);
        let ghost before = out@;
        let ghost part: Seq<char>;
        match error_report(&errors[i], source_locs, c_sources) {
            ErrorReport::Plain(t) => {
                push_str(&mut out, t.as_str());
                proof {
                    part = t@;
                }
            },
            ErrorReport::Drawn(d) => {
                proof {
                    lemma_error_labels_forward(errors@[i as int]@, errors@[i as int].kind.code(), source_locs@, c_sources@);
                    assert forall|k: int| 0 <= k < d.labels@.len() implies (#[trigger] d.labels@[k]).start <= d.labels@[k].end by {
                        assert(want->Drawn_0.labels[k] == error_label_view(d.labels@[k]));
                    }
                }
                let ghost message = d.message@;
                let drawn = render_error(d);
                push_str(&mut out, drawn.as_str());
                proof {
                    part = drawn@;
                    let c = choose|c: bool| report_header(message, c).is_prefix_of(drawn@);
                    assert(report_header(want->Drawn_0.message, c).is_prefix_of(part));
                }
            },
        }
        proof {
            assert(out@ == before + part);
            assert(parts.push(part).drop_last() =~= parts);
            parts = parts.push(part);
            assert(shows_report(want, parts[i as int]));
        }
        i = i + 1;
    }
    assert(errors@.take(i as int) =~= errors@);
    out
}

/// Trusted: draws an error report with ariadne: `Report::build` of an
/// error pointing at the range, with the default `Config` (which draws with
/// the Unicode character set), the message, a `Label` for each label with
/// its message and colour (`Color::Red` or `Color::Yellow`), the note, and
/// `write` over `ariadne::sources` of the named texts; the written bytes
/// are read as UTF-8 (ariadne writes only through `fmt`, so they are).
/// Claimed: `write` first writes the header line, `Error:` (no code is
/// set), a space, the message and a line break, into a `Vec` that never
/// refuses a write; the tag is painted red by yansi or not, by yansi's
/// process-wide switch, so which of the two is left open. Nothing is
/// claimed of the lines after it. `Label::new` panics on a backwards span,
/// so every label handed over must run forwards.
#[verifier::external_body]
fn render_error(d: ErrorDrawing) -> (out: String)
    requires
        forall|i: int| 0 <= i < d.labels@.len() ==> (#[trigger] d.labels@[i]).start <= d.labels@[i].end,
    ensures
        exists|coloured: bool| report_header(d.message@, coloured).is_prefix_of(out@),
{
    let hue = |h: &Hue| match h { Hue::Red => Color::Red, Hue::Yellow => Color::Yellow };
    let b = Report::build(ReportKind::Error, (d.path.clone(), d.start..d.end)).with_message(&d.message);
    let b = b.with_labels(d.labels.iter().map(|l| Label::new((l.source.clone(), l.start..l.end)).with_message(&l.message).with_color(hue(&l.hue))));
    let mut buf = vec![];
    b.with_note(&d.note).finish().write(sources(d.texts), &mut buf).ok();
    String::from_utf8(buf).unwrap_or_default()
}

} // verus!
