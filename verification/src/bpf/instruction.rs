//! BPF instruction encoding: registers, opcodes and the 8-byte
//! instruction format, with their F* constructor syntax.

use vstd::prelude::*;

use crate::text::{dec_int, dec_nat, hex_byte, push_char, push_dec_i64, push_dec_u64, push_hex_byte, push_str};

verus! {

/// BPF register identifiers (R0 through R10).
#[derive(Debug, Clone, Copy, PartialEq, Eq, Structural)]
pub enum Reg {
    R0,
    R1,
    R2,
    R3,
    R4,
    R5,
    R6,
    R7,
    R8,
    R9,
    R10,
}

impl Reg {
    /// The register's number.
    pub open spec fn num(self) -> nat {
        match self {
            Reg::R0 => 0,
            Reg::R1 => 1,
            Reg::R2 => 2,
            Reg::R3 => 3,
            Reg::R4 => 4,
            Reg::R5 => 5,
            Reg::R6 => 6,
            Reg::R7 => 7,
            Reg::R8 => 8,
            Reg::R9 => 9,
            Reg::R10 => 10,
        }
    }

    /// The register with number `v`, if there is one.
    pub open spec fn of_num(v: int) -> Option<Reg> {
        if v == 0 { Some(Reg::R0) }
        else if v == 1 { Some(Reg::R1) }
        else if v == 2 { Some(Reg::R2) }
        else if v == 3 { Some(Reg::R3) }
        else if v == 4 { Some(Reg::R4) }
        else if v == 5 { Some(Reg::R5) }
        else if v == 6 { Some(Reg::R6) }
        else if v == 7 { Some(Reg::R7) }
        else if v == 8 { Some(Reg::R8) }
        else if v == 9 { Some(Reg::R9) }
        else if v == 10 { Some(Reg::R10) }
        else { None }
    }

    /// Text of the register in F* syntax: `r` and its number.
    pub open spec fn text(self) -> Seq<char> {
        seq!['r'] + dec_nat(self.num())
    }

    pub fn from_u8(v: u8) -> (r: Option<Self>)
        ensures
            r == Reg::of_num(v as int),
    {
        match v {
            0 => Some(Reg::R0),
            1 => Some(Reg::R1),
            2 => Some(Reg::R2),
            3 => Some(Reg::R3),
            4 => Some(Reg::R4),
            5 => Some(Reg::R5),
            6 => Some(Reg::R6),
            7 => Some(Reg::R7),
            8 => Some(Reg::R8),
            9 => Some(Reg::R9),
            10 => Some(Reg::R10),
            _ => None,
        }
    }

    pub fn index(&self) -> (i: u8)
        ensures
            i as nat == self.num(),
            i <= 10,
    {
        match self {
            Reg::R0 => 0,
            Reg::R1 => 1,
            Reg::R2 => 2,
            Reg::R3 => 3,
            Reg::R4 => 4,
            Reg::R5 => 5,
            Reg::R6 => 6,
            Reg::R7 => 7,
            Reg::R8 => 8,
            Reg::R9 => 9,
            Reg::R10 => 10,
        }
    }

    /// Appends the register's F* text (`r0` .. `r10`) to `s`.
    pub fn push_text(&self, s: &mut String)
        ensures
            final(s)@ == old(s)@ + self.text(),
    {
        push_char(s, 'r');
        push_dec_u64(s, self.index() as u64);
        assert(final(s)@ =~= old(s)@ + self.text());
    }
}

/// Numbering a register and looking the number up again gives the
/// register back, and exactly the numbers 0..=10 name a register.
pub proof fn lemma_reg_number_roundtrip(r: Reg, v: int)
    ensures
        Reg::of_num(r.num() as int) == Some(r),
        Reg::of_num(v) is Some <==> 0 <= v <= 10,
        Reg::of_num(v) matches Some(q) ==> q.num() == v,
{
}

/// ALU instruction source operand.
#[derive(Debug, Clone, Copy, PartialEq, Eq, Structural)]
pub enum Source {
    Imm,
    Reg,
}

impl Source {
    pub open spec fn text(self) -> Seq<char> {
        match self {
            Source::Imm => "IMM"@,
            Source::Reg => "REG"@,
        }
    }

    pub fn name(&self) -> (s: &'static str)
        ensures
            s@ == self.text(),
    {
        match self {
            Source::Imm => "IMM",
            Source::Reg => "REG",
        }
    }
}

/// ALU operation codes, decoded from the upper nibble of the opcode byte.
#[derive(Debug, Clone, Copy, PartialEq, Eq, Structural)]
pub enum AluOp {
    Add,
    Sub,
    Mul,
    Div,
    Or,
    And,
    Lsh,
    Rsh,
    Neg,
    Mod,
    Xor,
    Mov,
    Arsh,
}

impl AluOp {
    /// The operation's code in the upper nibble of the opcode byte.
    pub open spec fn code(self) -> u8 {
        match self {
            AluOp::Add => 0x0,
            AluOp::Sub => 0x1,
            AluOp::Mul => 0x2,
            AluOp::Div => 0x3,
            AluOp::Or => 0x4,
            AluOp::And => 0x5,
            AluOp::Lsh => 0x6,
            AluOp::Rsh => 0x7,
            AluOp::Neg => 0x8,
            AluOp::Mod => 0x9,
            AluOp::Xor => 0xa,
            AluOp::Mov => 0xb,
            AluOp::Arsh => 0xc,
        }
    }

    /// The operation with code `v`, if any.
    pub open spec fn of_code(v: u8) -> Option<AluOp> {
        if v == 0x0 { Some(AluOp::Add) }
        else if v == 0x1 { Some(AluOp::Sub) }
        else if v == 0x2 { Some(AluOp::Mul) }
        else if v == 0x3 { Some(AluOp::Div) }
        else if v == 0x4 { Some(AluOp::Or) }
        else if v == 0x5 { Some(AluOp::And) }
        else if v == 0x6 { Some(AluOp::Lsh) }
        else if v == 0x7 { Some(AluOp::Rsh) }
        else if v == 0x8 { Some(AluOp::Neg) }
        else if v == 0x9 { Some(AluOp::Mod) }
        else if v == 0xa { Some(AluOp::Xor) }
        else if v == 0xb { Some(AluOp::Mov) }
        else if v == 0xc { Some(AluOp::Arsh) }
        else { None }
    }

    pub open spec fn text(self) -> Seq<char> {
        match self {
            AluOp::Add => "ADD"@,
            AluOp::Sub => "SUB"@,
            AluOp::Mul => "MUL"@,
            AluOp::Div => "DIV"@,
            AluOp::Or => "OR"@,
            AluOp::And => "AND"@,
            AluOp::Lsh => "LSH"@,
            AluOp::Rsh => "RSH"@,
            AluOp::Neg => "NEG"@,
            AluOp::Mod => "MOD"@,
            AluOp::Xor => "XOR"@,
            AluOp::Mov => "MOV"@,
            AluOp::Arsh => "ARSH"@,
        }
    }

    /// Decode from the upper nibble (bits [7:4]) of the opcode byte.
    pub fn from_u8(v: u8) -> (r: Option<Self>)
        ensures
            r == AluOp::of_code(v),
    {
        match v {
            0x0 => Some(AluOp::Add),
            0x1 => Some(AluOp::Sub),
            0x2 => Some(AluOp::Mul),
            0x3 => Some(AluOp::Div),
            0x4 => Some(AluOp::Or),
            0x5 => Some(AluOp::And),
            0x6 => Some(AluOp::Lsh),
            0x7 => Some(AluOp::Rsh),
            0x8 => Some(AluOp::Neg),
            0x9 => Some(AluOp::Mod),
            0xa => Some(AluOp::Xor),
            0xb => Some(AluOp::Mov),
            0xc => Some(AluOp::Arsh),
            _ => None,
        }
    }

    pub fn name(&self) -> (s: &'static str)
        ensures
            s@ == self.text(),
    {
        match self {
            AluOp::Add => "ADD",
            AluOp::Sub => "SUB",
            AluOp::Mul => "MUL",
            AluOp::Div => "DIV",
            AluOp::Or => "OR",
            AluOp::And => "AND",
            AluOp::Lsh => "LSH",
            AluOp::Rsh => "RSH",
            AluOp::Neg => "NEG",
            AluOp::Mod => "MOD",
            AluOp::Xor => "XOR",
            AluOp::Mov => "MOV",
            AluOp::Arsh => "ARSH",
        }
    }
}

/// Memory access width.
#[derive(Debug, Clone, Copy, PartialEq, Eq, Structural)]
pub enum MemWidth {
    B,
    H,
    W,
    DW,
}

impl MemWidth {
    /// The size field (bits [4:3] of the opcode byte) that selects this width.
    pub open spec fn size_bits(self) -> u8 {
        match self {
            MemWidth::W => 0x00,
            MemWidth::H => 0x01,
            MemWidth::B => 0x02,
            MemWidth::DW => 0x03,
        }
    }

    pub open spec fn of_size_bits(bits: u8) -> Option<MemWidth> {
        if bits == 0 { Some(MemWidth::W) }
        else if bits == 1 { Some(MemWidth::H) }
        else if bits == 2 { Some(MemWidth::B) }
        else if bits == 3 { Some(MemWidth::DW) }
        else { None }
    }

    /// Number of bytes accessed.
    pub open spec fn bytes(self) -> u8 {
        match self {
            MemWidth::B => 1,
            MemWidth::H => 2,
            MemWidth::W => 4,
            MemWidth::DW => 8,
        }
    }

    pub open spec fn text(self) -> Seq<char> {
        match self {
            MemWidth::B => "W8"@,
            MemWidth::H => "W16"@,
            MemWidth::W => "W32"@,
            MemWidth::DW => "W64"@,
        }
    }

    pub fn from_size_bits(bits: u8) -> (r: Option<Self>)
        ensures
            r == MemWidth::of_size_bits(bits),
    {
        match bits {
            0x00 => Some(MemWidth::W),
            0x01 => Some(MemWidth::H),
            0x02 => Some(MemWidth::B),
            0x03 => Some(MemWidth::DW),
            _ => None,
        }
    }

    /// Number of bytes accessed.
    pub fn width_bytes(&self) -> (n: u8)
        ensures
            n == self.bytes(),
    {
        match self {
            MemWidth::B => 1,
            MemWidth::H => 2,
            MemWidth::W => 4,
            MemWidth::DW => 8,
        }
    }

    pub fn name(&self) -> (s: &'static str)
        ensures
            s@ == self.text(),
    {
        match self {
            MemWidth::B => "W8",
            MemWidth::H => "W16",
            MemWidth::W => "W32",
            MemWidth::DW => "W64",
        }
    }
}

/// Jump comparison operation.
#[derive(Debug, Clone, Copy, PartialEq, Eq, Structural)]
pub enum JmpOp {
    Ja,
    Jeq,
    Jgt,
    Jge,
    Jset,
    Jne,
    Jlt,
    Jle,
    Jsgt,
    Jsge,
    Jslt,
    Jsle,
}

impl JmpOp {
    pub open spec fn code(self) -> u8 {
        match self {
            JmpOp::Ja => 0x00,
            JmpOp::Jeq => 0x01,
            JmpOp::Jgt => 0x02,
            JmpOp::Jge => 0x03,
            JmpOp::Jset => 0x04,
            JmpOp::Jne => 0x05,
            JmpOp::Jsgt => 0x06,
            JmpOp::Jsge => 0x07,
            JmpOp::Jlt => 0x0a,
            JmpOp::Jle => 0x0b,
            JmpOp::Jslt => 0x0c,
            JmpOp::Jsle => 0x0d,
        }
    }

    pub open spec fn of_code(v: u8) -> Option<JmpOp> {
        if v == 0x00 { Some(JmpOp::Ja) }
        else if v == 0x01 { Some(JmpOp::Jeq) }
        else if v == 0x02 { Some(JmpOp::Jgt) }
        else if v == 0x03 { Some(JmpOp::Jge) }
        else if v == 0x04 { Some(JmpOp::Jset) }
        else if v == 0x05 { Some(JmpOp::Jne) }
        else if v == 0x06 { Some(JmpOp::Jsgt) }
        else if v == 0x07 { Some(JmpOp::Jsge) }
        else if v == 0x0a { Some(JmpOp::Jlt) }
        else if v == 0x0b { Some(JmpOp::Jle) }
        else if v == 0x0c { Some(JmpOp::Jslt) }
        else if v == 0x0d { Some(JmpOp::Jsle) }
        else { None }
    }

    pub open spec fn text(self) -> Seq<char> {
        match self {
            JmpOp::Ja => "JA"@,
            JmpOp::Jeq => "JEQ"@,
            JmpOp::Jgt => "JGT"@,
            JmpOp::Jge => "JGE"@,
            JmpOp::Jset => "JSET"@,
            JmpOp::Jne => "JNE"@,
            JmpOp::Jlt => "JLT"@,
            JmpOp::Jle => "JLE"@,
            JmpOp::Jsgt => "JSGT"@,
            JmpOp::Jsge => "JSGE"@,
            JmpOp::Jslt => "JSLT"@,
            JmpOp::Jsle => "JSLE"@,
        }
    }

    pub fn from_u8(v: u8) -> (r: Option<Self>)
        ensures
            r == JmpOp::of_code(v),
    {
        match v {
            0x00 => Some(JmpOp::Ja),
            0x01 => Some(JmpOp::Jeq),
            0x02 => Some(JmpOp::Jgt),
            0x03 => Some(JmpOp::Jge),
            0x04 => Some(JmpOp::Jset),
            0x05 => Some(JmpOp::Jne),
            0x06 => Some(JmpOp::Jsgt),
            0x07 => Some(JmpOp::Jsge),
            0x0a => Some(JmpOp::Jlt),
            0x0b => Some(JmpOp::Jle),
            0x0c => Some(JmpOp::Jslt),
            0x0d => Some(JmpOp::Jsle),
            _ => None,
        }
    }

    pub fn name(&self) -> (s: &'static str)
        ensures
            s@ == self.text(),
    {
        match self {
            JmpOp::Ja => "JA",
            JmpOp::Jeq => "JEQ",
            JmpOp::Jgt => "JGT",
            JmpOp::Jge => "JGE",
            JmpOp::Jset => "JSET",
            JmpOp::Jne => "JNE",
            JmpOp::Jlt => "JLT",
            JmpOp::Jle => "JLE",
            JmpOp::Jsgt => "JSGT",
            JmpOp::Jsge => "JSGE",
            JmpOp::Jslt => "JSLT",
            JmpOp::Jsle => "JSLE",
        }
    }
}

/// Decoded BPF opcode.
#[derive(Debug, Clone, Copy, PartialEq, Eq, Structural)]
pub enum Opcode {
    Alu64(AluOp, Source),
    Alu32(AluOp, Source),
    Ldx(MemWidth),
    Stx(MemWidth),
    St(MemWidth),
    Jmp64(JmpOp, Source),
    Jmp32(JmpOp, Source),
    JmpJa,
    /// Helper call (opcode byte 0x85); the helper id is in `imm`.
    Call,
    /// 64-bit immediate load (opcode byte 0x18); occupies two slots.
    LdImm64,
    Exit,
    Unknown(u8),
}

/// Opcode byte of the EXIT instruction.
pub const EXIT_BYTE: u8 = 0x95;
/// Opcode byte of the CALL instruction.
pub const CALL_BYTE: u8 = 0x85;
/// Opcode byte of the LD_IMM64 instruction.
pub const LD_IMM64_BYTE: u8 = 0x18;

/// Source flag (bit 3) as an operand kind.
pub open spec fn source_of(raw: u8) -> Source {
    if raw & 0x08 != 0 { Source::Reg } else { Source::Imm }
}

impl Opcode {
    /// The meaning of an opcode byte. Layout: class = bits [2:0], source
    /// flag = bit 3, operation = bits [7:4], access size = bits [4:3].
    pub open spec fn of_byte(raw: u8) -> Opcode {
        let class = raw & 0x07;
        let op = (raw >> 4) & 0x0f;
        let size = (raw >> 3) & 0x03;
        if raw == EXIT_BYTE {
            Opcode::Exit
        } else if raw == CALL_BYTE {
            Opcode::Call
        } else if raw == LD_IMM64_BYTE {
            Opcode::LdImm64
        } else if class == 0x07 {
            match AluOp::of_code(op) {
                Some(o) => Opcode::Alu64(o, source_of(raw)),
                None => Opcode::Unknown(raw),
            }
        } else if class == 0x04 {
            match AluOp::of_code(op) {
                Some(o) => Opcode::Alu32(o, source_of(raw)),
                None => Opcode::Unknown(raw),
            }
        } else if class == 0x01 {
            match MemWidth::of_size_bits(size) {
                Some(w) => Opcode::Ldx(w),
                None => Opcode::Unknown(raw),
            }
        } else if class == 0x02 {
            match MemWidth::of_size_bits(size) {
                Some(w) => Opcode::St(w),
                None => Opcode::Unknown(raw),
            }
        } else if class == 0x03 {
            match MemWidth::of_size_bits(size) {
                Some(w) => Opcode::Stx(w),
                None => Opcode::Unknown(raw),
            }
        } else if class == 0x05 {
            if op == 0x00 {
                Opcode::JmpJa
            } else {
                match JmpOp::of_code(op) {
                    Some(o) => Opcode::Jmp64(o, source_of(raw)),
                    None => Opcode::Unknown(raw),
                }
            }
        } else if class == 0x06 {
            match JmpOp::of_code(op) {
                Some(o) => Opcode::Jmp32(o, source_of(raw)),
                None => Opcode::Unknown(raw),
            }
        } else {
            Opcode::Unknown(raw)
        }
    }

    /// The canonical opcode byte of an opcode (memory accesses use the
    /// MEM addressing mode, 0x60).
    pub open spec fn byte(self) -> u8 {
        match self {
            Opcode::Alu64(o, s) => ((o.code() << 4) | (if s == Source::Reg { 0x08u8 } else { 0x00u8 }) | 0x07u8) as u8,
            Opcode::Alu32(o, s) => ((o.code() << 4) | (if s == Source::Reg { 0x08u8 } else { 0x00u8 }) | 0x04u8) as u8,
            Opcode::Ldx(w) => (0x60u8 | (w.size_bits() << 3) | 0x01u8) as u8,
            Opcode::St(w) => (0x60u8 | (w.size_bits() << 3) | 0x02u8) as u8,
            Opcode::Stx(w) => (0x60u8 | (w.size_bits() << 3) | 0x03u8) as u8,
            Opcode::Jmp64(o, s) => ((o.code() << 4) | (if s == Source::Reg { 0x08u8 } else { 0x00u8 }) | 0x05u8) as u8,
            Opcode::Jmp32(o, s) => ((o.code() << 4) | (if s == Source::Reg { 0x08u8 } else { 0x00u8 }) | 0x06u8) as u8,
            Opcode::JmpJa => 0x05u8,
            Opcode::Call => CALL_BYTE,
            Opcode::LdImm64 => LD_IMM64_BYTE,
            Opcode::Exit => EXIT_BYTE,
            Opcode::Unknown(b) => b,
        }
    }

    /// Decode from the raw opcode byte.
    pub fn decode(raw: u8) -> (r: Self)
        ensures
            r == Opcode::of_byte(raw),
    {
        if raw == EXIT_BYTE {
            return Opcode::Exit;
        }
        if raw == CALL_BYTE {
            return Opcode::Call;
        }
        if raw == LD_IMM64_BYTE {
            return Opcode::LdImm64;
        }
        let class = raw & 0x07;
        let src_flag = raw & 0x08;
        let op_nibble = (raw >> 4) & 0x0f;
        let source = if src_flag != 0 { Source::Reg } else { Source::Imm };
        let size_bits = (raw >> 3) & 0x03;
        if class == 0x07 {
            match AluOp::from_u8(op_nibble) {
                Some(op) => Opcode::Alu64(op, source),
                None => Opcode::Unknown(raw),
            }
        } else if class == 0x04 {
            match AluOp::from_u8(op_nibble) {
                Some(op) => Opcode::Alu32(op, source),
                None => Opcode::Unknown(raw),
            }
        } else if class == 0x01 {
            match MemWidth::from_size_bits(size_bits) {
                Some(w) => Opcode::Ldx(w),
                None => Opcode::Unknown(raw),
            }
        } else if class == 0x02 {
            match MemWidth::from_size_bits(size_bits) {
                Some(w) => Opcode::St(w),
                None => Opcode::Unknown(raw),
            }
        } else if class == 0x03 {
            match MemWidth::from_size_bits(size_bits) {
                Some(w) => Opcode::Stx(w),
                None => Opcode::Unknown(raw),
            }
        } else if class == 0x05 {
            if op_nibble == 0x00 {
                Opcode::JmpJa
            } else {
                match JmpOp::from_u8(op_nibble) {
                    Some(op) => Opcode::Jmp64(op, source),
                    None => Opcode::Unknown(raw),
                }
            }
        } else if class == 0x06 {
            match JmpOp::from_u8(op_nibble) {
                Some(op) => Opcode::Jmp32(op, source),
                None => Opcode::Unknown(raw),
            }
        } else {
            Opcode::Unknown(raw)
        }
    }
}

/// A decoded BPF instruction.
#[derive(Debug, Clone, Copy, PartialEq, Eq, Structural)]
pub struct BpfInsn {
    pub opcode: Opcode,
    pub dst: Reg,
    pub src: Reg,
    pub offset: i16,
    pub imm: i32,
    /// Full 64-bit immediate of an LD_IMM64 (low half from `imm`, high
    /// half from the following slot); `None` for other instructions.
    pub imm64: Option<u64>,
}

/// The fields of an 8-byte little-endian instruction word.
pub open spec fn word_opcode(raw: u64) -> u8 { (raw & 0xff) as u8 }
pub open spec fn word_dst(raw: u64) -> u8 { ((raw >> 8) & 0x0f) as u8 }
pub open spec fn word_src(raw: u64) -> u8 { ((raw >> 12) & 0x0f) as u8 }
pub open spec fn word_offset(raw: u64) -> i16 { ((raw >> 16) & 0xffff) as u16 as i16 }
pub open spec fn word_imm(raw: u64) -> i32 { ((raw >> 32) & 0xffff_ffff) as u32 as i32 }

impl BpfInsn {
    /// The instruction an 8-byte word encodes, if its register fields name
    /// registers.
    pub open spec fn of_word(raw: u64) -> Option<BpfInsn> {
        match (Reg::of_num(word_dst(raw) as int), Reg::of_num(word_src(raw) as int)) {
            (Some(d), Some(s)) => Some(BpfInsn {
                opcode: Opcode::of_byte(word_opcode(raw)),
                dst: d,
                src: s,
                offset: word_offset(raw),
                imm: word_imm(raw),
                imm64: None,
            }),
            _ => None,
        }
    }

    /// Decode a BPF instruction from a 64-bit little-endian value.
    ///
    /// Encoding (8 bytes LE): byte 0 opcode; byte 1 dst_reg (low nibble)
    /// and src_reg (high nibble); bytes 2-3 offset (i16); bytes 4-7 imm (i32).
    pub fn decode(raw: u64) -> (r: Option<Self>)
        ensures
            r == BpfInsn::of_word(raw),
    {
        let opcode = Opcode::decode((raw & 0xff) as u8);
        let dst = Reg::from_u8(((raw >> 8) & 0x0f) as u8);
        let src = Reg::from_u8(((raw >> 12) & 0x0f) as u8);
        let offset = ((raw >> 16) & 0xffff) as u16 as i16;
        let imm = ((raw >> 32) & 0xffff_ffff) as u32 as i32;
        match (dst, src) {
            (Some(d), Some(s)) => Some(BpfInsn { opcode, dst: d, src: s, offset, imm, imm64: None }),
            _ => None,
        }
    }
}


proof fn lemma_op_byte_fields(c: u8, f: u8, cls: u8)
    requires
        c < 16,
        f == 0 || f == 8,
        cls < 8,
    ensures
        ((c << 4) | f | cls) as u8 & 0x07 == cls,
        (((c << 4) | f | cls) as u8 >> 4) & 0x0f == c,
        (((c << 4) | f | cls) as u8 & 0x08 != 0) == (f == 8),
{
    assert(((c << 4) | f | cls) as u8 & 0x07 == cls) by (bit_vector)
        requires c < 16, f == 0 || f == 8, cls < 8;
    assert((((c << 4) | f | cls) as u8 >> 4) & 0x0f == c) by (bit_vector)
        requires c < 16, f == 0 || f == 8, cls < 8;
    assert((((c << 4) | f | cls) as u8 & 0x08 != 0) == (f == 8)) by (bit_vector)
        requires c < 16, f == 0 || f == 8, cls < 8;
}

proof fn lemma_mem_byte_fields(sz: u8, cls: u8)
    requires
        sz < 4,
        cls < 8,
    ensures
        (0x60u8 | (sz << 3) | cls) as u8 & 0x07 == cls,
        ((0x60u8 | (sz << 3) | cls) as u8 >> 3) & 0x03 == sz,
{
    assert((0x60u8 | (sz << 3) | cls) as u8 & 0x07 == cls) by (bit_vector)
        requires sz < 4, cls < 8;
    assert(((0x60u8 | (sz << 3) | cls) as u8 >> 3) & 0x03 == sz) by (bit_vector)
        requires sz < 4, cls < 8;
}

/// Decoding the canonical byte of an opcode gives the opcode back. The
/// one exception is a 64-bit jump with the JA operation, whose byte is
/// read as the unconditional jump `JmpJa`.
pub proof fn lemma_opcode_byte_roundtrip(o: Opcode)
    requires
        !(o is Unknown),
        !(o matches Opcode::Jmp64(JmpOp::Ja, _)),
    ensures
        Opcode::of_byte(o.byte()) == o,
{
    assert(0x95u8 & 0x07 == 5 && 0x85u8 & 0x07 == 5 && 0x18u8 & 0x07 == 0
        && 0x05u8 & 0x07 == 5 && (0x05u8 >> 4) & 0x0f == 0
        && (0x95u8 >> 4) & 0x0f == 9 && (0x85u8 >> 4) & 0x0f == 8) by (bit_vector);
    if let Opcode::Alu64(op, src) = o {
        let f: u8 = if src == Source::Reg { 0x08 } else { 0x00 };
        lemma_op_byte_fields(op.code(), f, 0x07);
        assert(Opcode::of_byte(o.byte()) == o);
    } else if let Opcode::Alu32(op, src) = o {
        let f: u8 = if src == Source::Reg { 0x08 } else { 0x00 };
        lemma_op_byte_fields(op.code(), f, 0x04);
        assert(Opcode::of_byte(o.byte()) == o);
    } else if let Opcode::Jmp64(op, src) = o {
        let f: u8 = if src == Source::Reg { 0x08 } else { 0x00 };
        lemma_op_byte_fields(op.code(), f, 0x05);
        assert(Opcode::of_byte(o.byte()) == o);
    } else if let Opcode::Jmp32(op, src) = o {
        let f: u8 = if src == Source::Reg { 0x08 } else { 0x00 };
        lemma_op_byte_fields(op.code(), f, 0x06);
        assert(Opcode::of_byte(o.byte()) == o);
    } else if let Opcode::Ldx(w) = o {
        lemma_mem_byte_fields(w.size_bits(), 0x01);
        assert(Opcode::of_byte(o.byte()) == o);
    } else if let Opcode::St(w) = o {
        lemma_mem_byte_fields(w.size_bits(), 0x02);
        assert(Opcode::of_byte(o.byte()) == o);
    } else if let Opcode::Stx(w) = o {
        lemma_mem_byte_fields(w.size_bits(), 0x03);
        assert(Opcode::of_byte(o.byte()) == o);
    } else {
        assert(Opcode::of_byte(o.byte()) == o);
    }
}


impl BpfInsn {
    pub open spec fn alu_tail(self, op: AluOp, src: Source) -> Seq<char> {
        op.text() + seq![' '] + self.dst.text() + seq![' '] + (
            if src == Source::Reg { self.src.text() } else { dec_int(self.imm as int) + seq!['l'] })
    }

    pub open spec fn mem_tail(self, w: MemWidth) -> Seq<char> {
        w.text() + seq![' '] + self.dst.text() + seq![' '] + self.src.text()
            + " ("@ + dec_int(self.offset as int) + "l)"@
    }

    pub open spec fn st_tail(self, w: MemWidth) -> Seq<char> {
        w.text() + seq![' '] + self.dst.text() + " ("@ + dec_int(self.offset as int)
            + "l) ("@ + dec_int(self.imm as int) + "l)"@
    }

    pub open spec fn jmp_tail(self, op: JmpOp, src: Source) -> Seq<char> {
        op.text() + seq![' '] + self.dst.text() + (
            if src == Source::Reg {
                seq![' '] + self.src.text() + seq![' '] + dec_int(self.offset as int)
            } else {
                " ("@ + dec_int(self.imm as int) + "l) "@ + dec_int(self.offset as int)
            })
    }

    /// The F* text of a conditional jump with an immediate operand names the
    /// comparison and the destination register, puts the immediate as an
    /// `l` literal in parentheses, and ends with the jump offset:
    /// `BPF_JMP64_IMM OP rD (IMMl) OFF` (`BPF_JMP32_IMM` for 32-bit jumps).
    pub proof fn lemma_jmp_imm_text(self, op: JmpOp)
        requires
            self.opcode == Opcode::Jmp64(op, Source::Imm) || self.opcode == Opcode::Jmp32(op, Source::Imm),
        ensures
            self.text() == (if self.opcode is Jmp64 { "BPF_JMP64_IMM "@ } else { "BPF_JMP32_IMM "@ }) + op.text() + " "@
                + self.dst.text() + " ("@ + dec_int(self.imm as int) + "l) "@ + dec_int(self.offset as int),
    {
        reveal_strlit(" ");
        let head = if self.opcode is Jmp64 { "BPF_JMP64_IMM "@ } else { "BPF_JMP32_IMM "@ };
        assert(self.text() == head + self.jmp_tail(op, Source::Imm));
        assert(head + self.jmp_tail(op, Source::Imm) =~= head + op.text() + " "@ + self.dst.text() + " ("@ + dec_int(
            self.imm as int,
        ) + "l) "@ + dec_int(self.offset as int));
    }

    /// F* constructor syntax for this instruction, e.g.
    /// `BPF_ALU64_REG ADD r0 r1`, `BPF_ALU64_IMM MOV r0 0l`,
    /// `BPF_STX W32 r10 r1 (-4l)`, `BPF_EXIT`.
    pub open spec fn text(self) -> Seq<char> {
        match self.opcode {
            Opcode::Alu64(op, src) =>
                (if src == Source::Reg { "BPF_ALU64_REG "@ } else { "BPF_ALU64_IMM "@ }) + self.alu_tail(op, src),
            Opcode::Alu32(op, src) =>
                (if src == Source::Reg { "BPF_ALU32_REG "@ } else { "BPF_ALU32_IMM "@ }) + self.alu_tail(op, src),
            Opcode::Ldx(w) => "BPF_LDX "@ + self.mem_tail(w),
            Opcode::Stx(w) => "BPF_STX "@ + self.mem_tail(w),
            Opcode::St(w) => "BPF_ST "@ + self.st_tail(w),
            Opcode::Jmp64(op, src) =>
                (if src == Source::Reg { "BPF_JMP64_REG "@ } else { "BPF_JMP64_IMM "@ }) + self.jmp_tail(op, src),
            Opcode::Jmp32(op, src) =>
                (if src == Source::Reg { "BPF_JMP32_REG "@ } else { "BPF_JMP32_IMM "@ }) + self.jmp_tail(op, src),
            Opcode::JmpJa => "BPF_JMP_JA "@ + dec_int(self.offset as int),
            Opcode::Call => "BPF_CALL "@ + dec_int(self.imm as int),
            Opcode::LdImm64 => "BPF_LD_IMM64 "@ + self.dst.text() + " ("@ + dec_nat(self.imm64_value() as nat) + "uL)"@,
            Opcode::Exit => "BPF_EXIT"@,
            Opcode::Unknown(b) => "BPF_UNKNOWN 0x"@ + hex_byte(b),
        }
    }

    /// The value an LD_IMM64 loads: the full 64-bit immediate when known,
    /// else the 32-bit immediate zero-extended.
    pub open spec fn imm64_value(self) -> u64 {
        match self.imm64 {
            Some(v) => v,
            None => self.imm as u32 as u64,
        }
    }

    /// The value an LD_IMM64 loads (see `imm64_value`).
    pub fn ld_imm64_value(&self) -> (v: u64)
        ensures
            v == self.imm64_value(),
    {
        match self.imm64 {
            Some(v) => v,
            None => self.imm as u32 as u64,
        }
    }

    fn push_alu_tail(&self, s: &mut String, op: AluOp, src: Source)
        ensures
            final(s)@ == old(s)@ + self.alu_tail(op, src),
    {
        push_str(s, op.name());
        push_char(s, ' ');
        self.dst.push_text(s);
        push_char(s, ' ');
        if src == Source::Reg {
            self.src.push_text(s);
        } else {
            push_dec_i64(s, self.imm as i64);
            push_char(s, 'l');
        }
        assert(final(s)@ =~= old(s)@ + op.text() + seq![' '] + self.dst.text() + seq![' '] + (
            if src == Source::Reg { self.src.text() } else { dec_int(self.imm as int) + seq!['l'] }));
    }

    fn push_mem_tail(&self, s: &mut String, w: MemWidth)
        ensures
            final(s)@ == old(s)@ + self.mem_tail(w),
    {
        push_str(s, w.name());
        push_char(s, ' ');
        self.dst.push_text(s);
        push_char(s, ' ');
        self.src.push_text(s);
        push_str(s, " (");
        push_dec_i64(s, self.offset as i64);
        push_str(s, "l)");
        assert(final(s)@ =~= old(s)@ + w.text() + seq![' '] + self.dst.text() + seq![' '] + self.src.text()
            + " ("@ + dec_int(self.offset as int) + "l)"@);
    }

    fn push_st_tail(&self, s: &mut String, w: MemWidth)
        ensures
            final(s)@ == old(s)@ + self.st_tail(w),
    {
        push_str(s, w.name());
        push_char(s, ' ');
        self.dst.push_text(s);
        push_str(s, " (");
        push_dec_i64(s, self.offset as i64);
        push_str(s, "l) (");
        push_dec_i64(s, self.imm as i64);
        push_str(s, "l)");
        assert(final(s)@ =~= old(s)@ + w.text() + seq![' '] + self.dst.text() + " ("@ + dec_int(self.offset as int)
            + "l) ("@ + dec_int(self.imm as int) + "l)"@);
    }

    fn push_jmp_tail(&self, s: &mut String, op: JmpOp, src: Source)
        ensures
            final(s)@ == old(s)@ + self.jmp_tail(op, src),
    {
        push_str(s, op.name());
        push_char(s, ' ');
        self.dst.push_text(s);
        if src == Source::Reg {
            push_char(s, ' ');
            self.src.push_text(s);
            push_char(s, ' ');
            push_dec_i64(s, self.offset as i64);
        } else {
            push_str(s, " (");
            push_dec_i64(s, self.imm as i64);
            push_str(s, "l) ");
            push_dec_i64(s, self.offset as i64);
        }
        assert(final(s)@ =~= old(s)@ + op.text() + seq![' '] + self.dst.text() + (
            if src == Source::Reg {
                seq![' '] + self.src.text() + seq![' '] + dec_int(self.offset as int)
            } else {
                " ("@ + dec_int(self.imm as int) + "l) "@ + dec_int(self.offset as int)
            }));
    }

    /// Emit F* constructor syntax for this instruction.
    pub fn to_fstar(&self) -> (out: String)
        ensures
            out@ == self.text(),
    {
        let mut s = String::new();
        match self.opcode {
            Opcode::Alu64(op, src) => {
                if src == Source::Reg { push_str(&mut s, "BPF_ALU64_REG "); } else { push_str(&mut s, "BPF_ALU64_IMM "); }
                self.push_alu_tail(&mut s, op, src);
            }
            Opcode::Alu32(op, src) => {
                if src == Source::Reg { push_str(&mut s, "BPF_ALU32_REG "); } else { push_str(&mut s, "BPF_ALU32_IMM "); }
                self.push_alu_tail(&mut s, op, src);
            }
            Opcode::Ldx(w) => {
                push_str(&mut s, "BPF_LDX ");
                self.push_mem_tail(&mut s, w);
            }
            Opcode::Stx(w) => {
                push_str(&mut s, "BPF_STX ");
                self.push_mem_tail(&mut s, w);
            }
            Opcode::St(w) => {
                push_str(&mut s, "BPF_ST ");
                self.push_st_tail(&mut s, w);
            }
            Opcode::Jmp64(op, src) => {
                if src == Source::Reg { push_str(&mut s, "BPF_JMP64_REG "); } else { push_str(&mut s, "BPF_JMP64_IMM "); }
                self.push_jmp_tail(&mut s, op, src);
            }
            Opcode::Jmp32(op, src) => {
                if src == Source::Reg { push_str(&mut s, "BPF_JMP32_REG "); } else { push_str(&mut s, "BPF_JMP32_IMM "); }
                self.push_jmp_tail(&mut s, op, src);
            }
            Opcode::JmpJa => {
                push_str(&mut s, "BPF_JMP_JA ");
                push_dec_i64(&mut s, self.offset as i64);
            }
            Opcode::Call => {
                push_str(&mut s, "BPF_CALL ");
                push_dec_i64(&mut s, self.imm as i64);
            }
            Opcode::LdImm64 => {
                push_str(&mut s, "BPF_LD_IMM64 ");
                let ghost s0 = s@;
                self.dst.push_text(&mut s);
                push_str(&mut s, " (");
                push_dec_u64(&mut s, self.ld_imm64_value());
                push_str(&mut s, "uL)");
                assert(s@ =~= s0 + self.dst.text() + " ("@ + dec_nat(self.imm64_value() as nat) + "uL)"@);
            }
            Opcode::Exit => {
                push_str(&mut s, "BPF_EXIT");
            }
            Opcode::Unknown(b) => {
                push_str(&mut s, "BPF_UNKNOWN 0x");
                push_hex_byte(&mut s, b);
            }
        }
        s
    }
}

} // verus!
