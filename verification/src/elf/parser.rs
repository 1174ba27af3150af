//! BPF programmes and their metadata as read from an ELF object: decoded
//! instructions, DWARF source locations, LD_IMM64 relocations and
//! struct layouts.

use vstd::prelude::*;

use std::collections::HashMap;

use std::iter::from_fn;

use addr2line::gimli::{AttributeValue, DwAt, Dwarf, EndianSlice, LittleEndian, DW_AT_name, DW_AT_type};
use object::{File, Object, ObjectSection, ObjectSymbol};

use crate::bpf::instruction::{BpfInsn, Opcode};
use crate::text::{chars_of, push_str};
use crate::verify::scan::{eq_chars, slice_of, string_of};

verus! {

broadcast use vstd::std_specs::hash::group_hash_axioms;

/// A source location from DWARF line info.
#[derive(Debug, Clone)]
pub struct SourceLoc {
    /// Base name of the source file.
    pub file: String,
    /// Full path of the source file.
    pub path: String,
    pub line: u32,
}

impl SourceLoc {
    /// A copy of this location.
    pub fn dup(&self) -> (r: SourceLoc)
        ensures
            r == *self,
    {
        SourceLoc { file: self.file.clone(), path: self.path.clone(), line: self.line }
    }
}

/// The target of an LD_IMM64 relocation.
#[derive(Debug, Clone)]
pub enum RelocTarget {
    /// References a BPF map (map fd will be patched at load time).
    MapFd { name: String },
    /// References a global variable or rodata section.
    Data { name: String },
    /// CO-RE field byte offset -- the immediate will be patched to the
    /// byte offset of a kernel struct field.
    CoreFieldOffset,
}

impl RelocTarget {
    /// A copy of this target.
    pub fn dup(&self) -> (r: RelocTarget)
        ensures
            r == *self,
    {
        match self {
            RelocTarget::MapFd { name } => RelocTarget::MapFd { name: name.clone() },
            RelocTarget::Data { name } => RelocTarget::Data { name: name.clone() },
            RelocTarget::CoreFieldOffset => RelocTarget::CoreFieldOffset,
        }
    }
}

#[derive(Debug, Clone)]
pub struct StructField {
    pub name: String,
    pub offset: u64,
    pub byte_size: u64,
}

#[derive(Debug, Clone)]
pub struct StructDef {
    pub name: String,
    pub is_user_defined: bool,
    pub fields: Vec<StructField>,
}

// ---------------------------------------------------------------------
// Little-endian fields

/// The little-endian `u64` at `b[i..i + 8]`.
pub open spec fn le_u64(b: Seq<u8>, i: int) -> u64 {
    (b[i] as u64) | ((b[i + 1] as u64) << 8) | ((b[i + 2] as u64) << 16) | ((b[i + 3] as u64) << 24) | ((b[i
        + 4] as u64) << 32) | ((b[i + 5] as u64) << 40) | ((b[i + 6] as u64) << 48) | ((b[i + 7] as u64) << 56)
}

/// The little-endian `u32` at `b[i..i + 4]`.
pub open spec fn le_u32(b: Seq<u8>, i: int) -> u32 {
    (b[i] as u32) | ((b[i + 1] as u32) << 8) | ((b[i + 2] as u32) << 16) | ((b[i + 3] as u32) << 24)
}

/// Read the little-endian `u64` at `b[i..i + 8]`.
pub fn read_u64(b: &[u8], i: usize) -> (r: u64)
    requires
        i + 8 <= b@.len(),
    ensures
        r == le_u64(b@, i as int),
{
    (b[i] as u64) | ((b[i + 1] as u64) << 8) | ((b[i + 2] as u64) << 16) | ((b[i + 3] as u64) << 24) | ((b[i
        + 4] as u64) << 32) | ((b[i + 5] as u64) << 40) | ((b[i + 6] as u64) << 48) | ((b[i + 7] as u64) << 56)
}

/// Read the little-endian `u32` at `b[i..i + 4]`.
pub fn read_u32(b: &[u8], i: usize) -> (r: u32)
    requires
        i + 4 <= b@.len(),
    ensures
        r == le_u32(b@, i as int),
{
    (b[i] as u32) | ((b[i + 1] as u32) << 8) | ((b[i + 2] as u32) << 16) | ((b[i + 3] as u32) << 24)
}

// ---------------------------------------------------------------------
// Relocation entries

/// The `R_BPF_64_64` entries of a REL section's data (16-byte entries of
/// an offset and an info word whose low half is the type and high half
/// the symbol index), from entry `k` on: each as its offset and symbol.
pub open spec fn rel_entries_from(b: Seq<u8>, k: int) -> Seq<(u64, u32)>
    decreases b.len() / 16 - k,
{
    if k < 0 || k >= b.len() / 16 {
        Seq::empty()
    } else {
        let info = le_u64(b, 16 * k + 8);
        let rest = rel_entries_from(b, k + 1);
        if info as u32 == 1 {
            seq![(le_u64(b, 16 * k), (info >> 32) as u32)] + rest
        } else {
            rest
        }
    }
}

/// The `R_BPF_64_64` entries of a REL section's data, in order.
pub fn parse_rel_entries(b: &[u8]) -> (r: Vec<(u64, u32)>)
    ensures
        r@ == rel_entries_from(b@, 0),
{
    let n = b.len() / 16;
    let mut out: Vec<(u64, u32)> = Vec::new();
    let mut k: usize = 0;
    while k < n
        invariant
            n == b@.len() / 16,
            b@.len() <= usize::MAX,
            k <= n,
            rel_entries_from(b@, 0) == out@ + rel_entries_from(b@, k as int),
        decreases n - k,
    {
        assert(16 * k + 16 <= b@.len()) by (nonlinear_arith)
            requires
                k < n,
                n == b@.len() / 16,
        ;
        let offset = read_u64(b, 16 * k);
        let info = read_u64(b, 16 * k + 8);
        if info as u32 == 1 {
            out.push((offset, (info >> 32) as u32));
            assert(rel_entries_from(b@, 0) =~= out@ + rel_entries_from(b@, k + 1));
        }
        k = k + 1;
    }
    out
}

// ---------------------------------------------------------------------
// Instruction decoding

/// The 64-bit immediate of an LD_IMM64: the low half from the first
/// slot's immediate, the high half from the second slot's.
pub open spec fn imm64_of(insn: BpfInsn, second: u64) -> u64 {
    (insn.imm as u32 as u64) | (second & 0xffff_ffff_0000_0000)
}

/// The instructions a section's bytes decode to from 8-byte slot `k` on,
/// each with the byte offset of its first slot: a slot whose registers
/// are invalid is skipped, and an LD_IMM64 followed by another slot takes
/// that slot for the high half of its immediate.
pub open spec fn decode_from(b: Seq<u8>, k: int) -> Seq<(BpfInsn, u64)>
    decreases b.len() / 8 - k,
{
    let n = b.len() / 8;
    if k < 0 || k >= n {
        Seq::empty()
    } else {
        match BpfInsn::of_word(le_u64(b, 8 * k)) {
            None => decode_from(b, k + 1),
            Some(insn) => if insn.opcode == Opcode::LdImm64 && k + 1 < n {
                seq![(BpfInsn { imm64: Some(imm64_of(insn, le_u64(b, 8 * (k + 1)))), ..insn }, (8 * k) as u64)]
                    + decode_from(b, k + 2)
            } else {
                seq![(insn, (8 * k) as u64)] + decode_from(b, k + 1)
            },
        }
    }
}

/// The target the last relocation entry at `offset` names.
pub open spec fn reloc_at(rel: Seq<(u64, RelocTarget)>, offset: u64) -> Option<RelocTarget>
    decreases rel.len(),
{
    if rel.len() == 0 {
        None
    } else if rel.last().0 == offset {
        Some(rel.last().1)
    } else {
        reloc_at(rel.drop_last(), offset)
    }
}

/// The relocations of the first `j` decoded instructions, by instruction
/// index: an LD_IMM64 with both slots takes the relocation entry at its
/// offset, or failing one a CO-RE field offset where the section's CO-RE
/// records name its offset.
pub open spec fn relocs_upto(ds: Seq<(BpfInsn, u64)>, j: int, rel: Seq<(u64, RelocTarget)>, core: Seq<u32>) -> Map<
    usize,
    RelocTarget,
>
    decreases j,
{
    if j <= 0 || j > ds.len() {
        Map::empty()
    } else {
        let m = relocs_upto(ds, j - 1, rel, core);
        let (insn, off) = ds[j - 1];
        if insn.imm64 is Some {
            match reloc_at(rel, off) {
                Some(t) => m.insert((j - 1) as usize, t),
                None => if core.contains(off as u32) {
                    m.insert((j - 1) as usize, RelocTarget::CoreFieldOffset)
                } else {
                    m
                },
            }
        } else {
            m
        }
    }
}

fn reloc_lookup(rel: &Vec<(u64, RelocTarget)>, offset: u64) -> (r: Option<RelocTarget>)
    ensures
        r == reloc_at(rel@, offset),
{
    let mut k: usize = rel.len();
    assert(rel@.take(k as int) =~= rel@);
    while k > 0
        invariant
            k <= rel@.len(),
            reloc_at(rel@, offset) == reloc_at(rel@.take(k as int), offset),
        decreases k,
    {
        assert(rel@.take(k as int).drop_last() =~= rel@.take(k - 1));
        if rel[k - 1].0 == offset {
            return Some(rel[k - 1].1.dup());
        }
        k = k - 1;
    }
    None
}

fn has_u32(v: &Vec<u32>, x: u32) -> (b: bool)
    ensures
        b == v@.contains(x),
{
    let mut i: usize = 0;
    while i < v.len()
        invariant
            i <= v@.len(),
            forall|j: int| 0 <= j < i ==> v@[j] != x,
        decreases v@.len() - i,
    {
        if v[i] == x {
            assert(v@[i as int] == x);
            return true;
        }
        i = i + 1;
    }
    false
}

/// A section's decoded instructions, each instruction's byte offset, and
/// its LD_IMM64 relocations (see `decode_from` and `relocs_upto`).
pub fn decode_section(b: &[u8], rel: &Vec<(u64, RelocTarget)>, core: &Vec<u32>) -> (r: (
    Vec<BpfInsn>,
    Vec<u64>,
    HashMap<usize, RelocTarget>,
))
    ensures
        r.0@.len() == decode_from(b@, 0).len(),
        r.1@.len() == decode_from(b@, 0).len(),
        forall|j: int| 0 <= j < r.0@.len() ==> r.0@[j] == decode_from(b@, 0)[j].0 && r.1@[j] == decode_from(b@, 0)[j].1,
        r.2@ == relocs_upto(decode_from(b@, 0), decode_from(b@, 0).len() as int, rel@, core@),
{
    let ghost all = decode_from(b@, 0);
    let n = b.len() / 8;
    let mut insns: Vec<BpfInsn> = Vec::new();
    let mut offsets: Vec<u64> = Vec::new();
    let mut relocations: HashMap<usize, RelocTarget> = HashMap::new();
    let mut k: usize = 0;
    while k < n
        invariant
            n == b@.len() / 8,
            b@.len() <= usize::MAX,
            k <= n,
            all == decode_from(b@, 0),
            insns@.len() == offsets@.len(),
            all == insns@.zip_with(offsets@) + decode_from(b@, k as int),
            relocations@ == relocs_upto(all, insns@.len() as int, rel@, core@),
        decreases n - k,
    {
        let ghost before = insns@.zip_with(offsets@);
        assert(8 * k + 8 <= b@.len()) by (nonlinear_arith)
            requires
                k < n,
                n == b@.len() / 8,
        ;
        let raw = read_u64(b, 8 * k);
        let byte_offset = (8 * k) as u64;
        match BpfInsn::decode(raw) {
            None => {
                k = k + 1;
            },
            Some(insn) => {
                let mut insn = insn;
                let j = insns.len();
                if insn.opcode == Opcode::LdImm64 && k + 1 < n {
                    assert(8 * (k + 1) + 8 <= b@.len()) by (nonlinear_arith)
                        requires
                            k + 1 < n,
                            n == b@.len() / 8,
                    ;
                    let raw2 = read_u64(b, 8 * (k + 1));
                    insn.imm64 = Some((insn.imm as u32 as u64) | (raw2 & 0xffff_ffff_0000_0000));
                    match reloc_lookup(rel, byte_offset) {
                        Some(t) => {
                            relocations.insert(j, t);
                        },
                        None => if has_u32(core, byte_offset as u32) {
                            relocations.insert(j, RelocTarget::CoreFieldOffset);
                        },
                    }
                    insns.push(insn);
                    offsets.push(byte_offset);
                    k = k + 2;
                } else {
                    insns.push(insn);
                    offsets.push(byte_offset);
                    k = k + 1;
                }
                proof {
                    assert(insns@.zip_with(offsets@) =~= before.push((insn, byte_offset)));
                    assert(all == insns@.zip_with(offsets@) + decode_from(b@, k as int));
                    assert(all[j as int] == (insn, byte_offset));
                }
            },
        }
    }
    (insns, offsets, relocations)
}

// ---------------------------------------------------------------------
// CO-RE relocations from .BTF.ext

/// The text UTF-8 bytes decode to, or `None` where they are not UTF-8.
pub uninterp spec fn utf8_text(b: Seq<u8>) -> Option<Seq<char>>;

/// Trusted: calls `std::str::from_utf8`, which std documents as returning
/// the string slice the bytes encode, or an error where they are not
/// valid UTF-8. Claimed: the result depends on the bytes alone (named
/// `utf8_text`); the decoding itself is not stated.
#[verifier::external_body]
fn str_from_utf8(b: &[u8]) -> (r: Option<String>)
    ensures
        match r {
            Some(s) => utf8_text(b@) == Some(s@),
            None => utf8_text(b@) is None,
        },
{
    std::str::from_utf8(b).ok().map(|s| s.to_string())
}

/// The position of the first zero byte of `b` at or after `i`, or the
/// length where there is none.
pub open spec fn nul_from(b: Seq<u8>, i: int) -> int
    decreases b.len() - i,
{
    if i < 0 || i >= b.len() {
        b.len() as int
    } else if b[i] == 0 {
        i
    } else {
        nul_from(b, i + 1)
    }
}

/// The string at offset `off` of a BTF string table: the bytes up to the
/// next zero, as UTF-8; empty where the offset is out of range or the
/// bytes are not UTF-8.
pub open spec fn btf_string(strtab: Seq<u8>, off: u32) -> Seq<char> {
    if off >= strtab.len() {
        Seq::empty()
    } else {
        match utf8_text(strtab.subrange(off as int, nul_from(strtab, off as int))) {
            Some(t) => t,
            None => Seq::empty(),
        }
    }
}

proof fn lemma_nul_from(b: Seq<u8>, i: int)
    requires
        0 <= i <= b.len(),
    ensures
        i <= nul_from(b, i) <= b.len(),
    decreases b.len() - i,
{
    if i < b.len() && b[i] != 0 {
        lemma_nul_from(b, i + 1);
    }
}

/// The string at offset `off` of a BTF string table (see `btf_string`).
fn btf_str(strtab: &[u8], off: u32) -> (r: String)
    ensures
        r@ == btf_string(strtab@, off),
{
    let start = off as usize;
    if start >= strtab.len() {
        return String::new();
    }
    let mut end = start;
    proof {
        lemma_nul_from(strtab@, start as int);
    }
    while end < strtab.len() && strtab[end] != 0
        invariant
            start <= end <= strtab@.len(),
            nul_from(strtab@, start as int) == nul_from(strtab@, end as int),
        decreases strtab@.len() - end,
    {
        end = end + 1;
    }
    let mut bytes: Vec<u8> = Vec::new();
    let mut i = start;
    while i < end
        invariant
            start <= i <= end <= strtab@.len(),
            bytes@ == strtab@.subrange(start as int, i as int),
        decreases end - i,
    {
        bytes.push(strtab[i]);
        assert(bytes@ =~= strtab@.subrange(start as int, i + 1));
        i = i + 1;
    }
    match str_from_utf8(bytes.as_slice()) {
        Some(t) => t,
        None => String::new(),
    }
}

/// The FIELD_BYTE_OFFSET records (kind 0) among records `i..n` of one
/// section's info block: records of `rec` bytes from `base`, up to the
/// first that would pass `end`; each as the section's name and the
/// record's instruction offset.
pub open spec fn block_records(ext: Seq<u8>, name: Seq<char>, base: int, end: int, rec: int, i: int, n: int) -> Seq<
    (Seq<char>, u32),
>
    decreases n - i,
{
    if i >= n || base + i * rec + 16 > end || base + i * rec < 0 {
        Seq::empty()
    } else {
        let at = base + i * rec;
        let rest = block_records(ext, name, base, end, rec, i + 1, n);
        if le_u32(ext, at + 12) == 0 {
            seq![(name, le_u32(ext, at))] + rest
        } else {
            rest
        }
    }
}

/// The FIELD_BYTE_OFFSET records of the info blocks from `pos` to `end`:
/// each block is a section name offset and a record count, then the
/// records.
pub open spec fn core_blocks(ext: Seq<u8>, strtab: Seq<u8>, pos: int, end: int, rec: int) -> Seq<
    (Seq<char>, u32),
>
    decreases (if pos <= end { end - pos + 1 } else { 0 }),
{
    if pos < 0 || pos + 8 > end || rec < 16 {
        Seq::empty()
    } else {
        let name = btf_string(strtab, le_u32(ext, pos));
        let n = le_u32(ext, pos + 4) as int;
        proof {
            assert(n * rec >= 0) by (nonlinear_arith)
                requires
                    n >= 0,
                    rec >= 16,
            ;
        }
        block_records(ext, name, pos + 8, end, rec, 0, n) + core_blocks(ext, strtab, pos + 8 + n * rec, end, rec)
    }
}

/// The CO-RE FIELD_BYTE_OFFSET relocations that a `.BTF` section and a
/// `.BTF.ext` section record, as section names and instruction byte
/// offsets: none where either is missing or a header is short or out of
/// range.
pub open spec fn core_relos_of(btf: Seq<u8>, ext: Seq<u8>) -> Seq<(Seq<char>, u32)> {
    if btf.len() < 24 {
        Seq::empty()
    } else {
        let str_start = le_u32(btf, 4) + le_u32(btf, 16);
        let str_len = le_u32(btf, 20) as int;
        if str_start + str_len > btf.len() || ext.len() < 32 || le_u32(ext, 4) < 32 || le_u32(ext, 28) == 0 {
            Seq::empty()
        } else {
            let strtab = btf.subrange(str_start, str_start + str_len);
            let relo_start = le_u32(ext, 4) + le_u32(ext, 24);
            let relo_len = le_u32(ext, 28) as int;
            if relo_start + relo_len > ext.len() || relo_len < 4 || le_u32(ext, relo_start) < 16 {
                Seq::empty()
            } else {
                core_blocks(ext, strtab, relo_start + 4, relo_start + relo_len, le_u32(ext, relo_start) as int)
            }
        }
    }
}

/// Parse the CO-RE relocations of `.BTF` and `.BTF.ext` data (see
/// `core_relos_of`).
pub fn parse_btf_ext_core_relos(btf: &[u8], ext: &[u8]) -> (r: Vec<(String, u32)>)
    ensures
        r@.map_values(|p: (String, u32)| (p.0@, p.1)) == core_relos_of(btf@, ext@),
{
    let mut out: Vec<(String, u32)> = Vec::new();
    assert(out@.map_values(|p: (String, u32)| (p.0@, p.1)) =~= Seq::empty());
    if btf.len() < 24 {
        return out;
    }
    let str_start = read_u32(btf, 4) as u64 + read_u32(btf, 16) as u64;
    let str_len = read_u32(btf, 20) as u64;
    if str_start + str_len > btf.len() as u64 || ext.len() < 32 {
        return out;
    }
    let ext_hdr_len = read_u32(ext, 4) as u64;
    if ext_hdr_len < 32 {
        return out;
    }
    let core_relo_off = read_u32(ext, 24) as u64;
    let core_relo_len = read_u32(ext, 28) as u64;
    if core_relo_len == 0 {
        return out;
    }
    let relo_start = ext_hdr_len + core_relo_off;
    if relo_start + core_relo_len > ext.len() as u64 || core_relo_len < 4 {
        return out;
    }
    let rec_size = read_u32(ext, relo_start as usize) as u64;
    if rec_size < 16 {
        return out;
    }
    let mut strtab: Vec<u8> = Vec::new();
    let mut t = str_start as usize;
    let str_end = (str_start + str_len) as usize;
    while t < str_end
        invariant
            str_end == str_start + str_len,
            str_start <= t <= str_start + str_len <= btf@.len(),
            strtab@ == btf@.subrange(str_start as int, t as int),
        decreases str_start + str_len - t,
    {
        strtab.push(btf[t]);
        assert(strtab@ =~= btf@.subrange(str_start as int, t + 1));
        t = t + 1;
    }
    let end: u128 = (relo_start + core_relo_len) as u128;
    let rec: u128 = rec_size as u128;
    let mut pos: u128 = relo_start as u128 + 4;
    let ghost all = core_relos_of(btf@, ext@);
    assert(all == core_blocks(ext@, strtab@, pos as int, end as int, rec as int));
    while pos + 8 <= end
        invariant
            end <= ext@.len() <= usize::MAX,
            pos <= 0x4_0000_0000_0000_0000,
            16 <= rec < 0x1_0000_0000,
            all == out@.map_values(|p: (String, u32)| (p.0@, p.1)) + core_blocks(
                ext@,
                strtab@,
                pos as int,
                end as int,
                rec as int,
            ),
        decreases (if pos <= end { end - pos + 1 } else { 0 }),
    {
        let sec_name_off = read_u32(ext, pos as usize);
        let num_info = read_u32(ext, (pos + 4) as usize) as u128;
        let base = pos + 8;
        let sec_name = btf_str(strtab.as_slice(), sec_name_off);
        let ghost name = sec_name@;
        let ghost before = out@.map_values(|p: (String, u32)| (p.0@, p.1));
        let ghost blk = block_records(ext@, name, base as int, end as int, rec as int, 0, num_info as int);
        let mut i: u128 = 0;
        while i < num_info && base + i * rec + 16 <= end
            invariant
                base <= end,
                end <= ext@.len() <= usize::MAX,
                16 <= rec < 0x1_0000_0000,
                num_info < 0x1_0000_0000,
                i <= num_info,
                i * rec < 0x1_0000_0000 * 0x1_0000_0000,
                sec_name@ == name,
                blk == block_records(ext@, name, base as int, end as int, rec as int, 0, num_info as int),
                before + blk == out@.map_values(|p: (String, u32)| (p.0@, p.1)) + block_records(
                    ext@,
                    name,
                    base as int,
                    end as int,
                    rec as int,
                    i as int,
                    num_info as int,
                ),
            decreases num_info - i,
        {
            let rec_pos = base + i * rec;
            let insn_off = read_u32(ext, rec_pos as usize);
            let kind = read_u32(ext, (rec_pos + 12) as usize);
            let ghost mid = out@.map_values(|p: (String, u32)| (p.0@, p.1));
            if kind == 0 {
                out.push((sec_name.clone(), insn_off));
                assert(out@.map_values(|p: (String, u32)| (p.0@, p.1)) =~= mid.push((name, insn_off)));
            }
            assert((i + 1) * rec < 0x1_0000_0000 * 0x1_0000_0000) by (nonlinear_arith)
                requires
                    i < num_info,
                    num_info < 0x1_0000_0000,
                    rec < 0x1_0000_0000,
            ;
            i = i + 1;
        }
        assert(num_info * rec < 0x1_0000_0000 * 0x1_0000_0000) by (nonlinear_arith)
            requires
                num_info < 0x1_0000_0000,
                rec < 0x1_0000_0000,
        ;
        pos = base + num_info * rec;
    }
    out
}

// ---------------------------------------------------------------------
// Struct layouts from DWARF

/// DWARF tag of a struct type.
pub const DW_TAG_STRUCTURE_TYPE: u16 = 0x13;
/// DWARF tag of a struct member.
pub const DW_TAG_MEMBER: u16 = 0x0d;

/// A debugging information entry, reduced to what struct layouts need.
#[derive(Debug, Clone)]
pub struct Die {
    /// The entry's offset within its unit.
    pub offset: usize,
    pub tag: u16,
    pub name: Option<String>,
    pub byte_size: Option<u64>,
    /// The unit offset of the entry's type.
    pub type_ref: Option<usize>,
    /// The file index of the declaration (0: the unit's own file).
    pub decl_file: Option<u64>,
    /// A member's byte offset in its struct.
    pub member_location: Option<u64>,
}

/// An entry with its name as a character sequence.
pub struct DieView {
    pub offset: usize,
    pub tag: u16,
    pub name: Option<Seq<char>>,
    pub byte_size: Option<u64>,
    pub type_ref: Option<usize>,
    pub decl_file: Option<u64>,
    pub member_location: Option<u64>,
}

pub open spec fn die_view(d: Die) -> DieView {
    DieView {
        offset: d.offset,
        tag: d.tag,
        name: match d.name {
            Some(n) => Some(n@),
            None => None,
        },
        byte_size: d.byte_size,
        type_ref: d.type_ref,
        decl_file: d.decl_file,
        member_location: d.member_location,
    }
}

/// A struct layout with its texts as character sequences.
pub struct StructView {
    pub name: Seq<char>,
    pub is_user_defined: bool,
    pub fields: Seq<(Seq<char>, u64, u64)>,
}

pub open spec fn field_view(f: StructField) -> (Seq<char>, u64, u64) {
    (f.name@, f.offset, f.byte_size)
}

pub open spec fn struct_view(d: StructDef) -> StructView {
    StructView {
        name: d.name@,
        is_user_defined: d.is_user_defined,
        fields: d.fields@.map_values(|f: StructField| field_view(f)),
    }
}

/// `m` with the byte sizes of the first `k` entries added, by offset (a
/// later entry at the same offset wins).
pub open spec fn sizes_into(m: Map<usize, u64>, dies: Seq<DieView>, k: int) -> Map<usize, u64>
    decreases k,
{
    if k <= 0 || k > dies.len() {
        m
    } else {
        let m2 = sizes_into(m, dies, k - 1);
        match dies[k - 1].byte_size {
            Some(sz) => m2.insert(dies[k - 1].offset, sz),
            None => m2,
        }
    }
}

/// `m` with the type references of the first `k` entries added, by offset.
pub open spec fn refs_into(m: Map<usize, usize>, dies: Seq<DieView>, k: int) -> Map<usize, usize>
    decreases k,
{
    if k <= 0 || k > dies.len() {
        m
    } else {
        let m2 = refs_into(m, dies, k - 1);
        match dies[k - 1].type_ref {
            Some(t) => m2.insert(dies[k - 1].offset, t),
            None => m2,
        }
    }
}

/// The byte sizes of the entries of the first `u` units.
pub open spec fn all_sizes(units: Seq<Seq<DieView>>, u: int) -> Map<usize, u64>
    decreases u,
{
    if u <= 0 || u > units.len() {
        Map::empty()
    } else {
        sizes_into(all_sizes(units, u - 1), units[u - 1], units[u - 1].len() as int)
    }
}

/// The type references of the entries of the first `u` units.
pub open spec fn all_refs(units: Seq<Seq<DieView>>, u: int) -> Map<usize, usize>
    decreases u,
{
    if u <= 0 || u > units.len() {
        Map::empty()
    } else {
        refs_into(all_refs(units, u - 1), units[u - 1], units[u - 1].len() as int)
    }
}

/// The byte size of the type at `cur`, following type references (of
/// typedefs and qualifiers) at most `fuel` times.
pub open spec fn chase_size(sizes: Map<usize, u64>, refs: Map<usize, usize>, cur: usize, fuel: nat) -> Option<u64>
    decreases fuel,
{
    if fuel == 0 {
        None
    } else if sizes.contains_key(cur) {
        Some(sizes[cur])
    } else if refs.contains_key(cur) {
        chase_size(sizes, refs, refs[cur], (fuel - 1) as nat)
    } else {
        None
    }
}

/// The state of reading one unit's entries: the struct being read (its
/// name and whether it is the user's), its fields so far, and the structs
/// finished.
#[verifier::ext_equal]
pub struct StructScan {
    pub cur: Option<(Seq<char>, bool)>,
    pub fields: Seq<(Seq<char>, u64, u64)>,
    pub out: Seq<StructView>,
}

/// The scan with the current struct finished: kept where it has fields.
pub open spec fn flush(s: StructScan) -> StructScan {
    match s.cur {
        Some((n, u)) => if s.fields.len() > 0 {
            StructScan {
                cur: None,
                fields: Seq::empty(),
                out: s.out.push(StructView { name: n, is_user_defined: u, fields: s.fields }),
            }
        } else {
            StructScan { cur: None, ..s }
        },
        None => s,
    }
}

/// The scan after one more entry: a struct type finishes the current
/// struct and starts another (where it has a name; it is the user's
/// where declared in file 0); a member of the current struct makes it the
/// user's where declared in file 0, and adds a field where it has a name,
/// an offset, and a type of 1, 2, 4 or 8 bytes; any other entry finishes
/// the current struct.
pub open spec fn struct_step(s: StructScan, d: DieView, sizes: Map<usize, u64>, refs: Map<usize, usize>) -> StructScan {
    if d.tag == DW_TAG_STRUCTURE_TYPE {
        let f = flush(s);
        StructScan {
            cur: match d.name {
                Some(n) => Some((n, d.decl_file == Some(0u64))),
                None => None,
            },
            fields: Seq::empty(),
            out: f.out,
        }
    } else if d.tag == DW_TAG_MEMBER && s.cur is Some {
        let (cur_name, cur_user) = s.cur->Some_0;
        let user = cur_user || d.decl_file == Some(0u64);
        let size = match d.type_ref {
            Some(t) => chase_size(sizes, refs, t, 10),
            None => None,
        };
        let fields = if d.name is Some && d.member_location is Some && size is Some && (size->0 == 1 || size->0
            == 2 || size->0 == 4 || size->0 == 8) {
            s.fields.push((d.name->0, d.member_location->0, size->0))
        } else {
            s.fields
        };
        StructScan { cur: Some((cur_name, user)), fields, out: s.out }
    } else if s.cur is Some && d.tag != DW_TAG_MEMBER {
        flush(s)
    } else {
        s
    }
}

/// The scan after the first `k` entries of a unit.
pub open spec fn scan_upto(dies: Seq<DieView>, k: int, sizes: Map<usize, u64>, refs: Map<usize, usize>) -> StructScan
    decreases k,
{
    if k <= 0 || k > dies.len() {
        StructScan { cur: None, fields: Seq::empty(), out: Seq::empty() }
    } else {
        struct_step(scan_upto(dies, k - 1, sizes, refs), dies[k - 1], sizes, refs)
    }
}

/// The structs of one unit: the scan of its entries, with the last
/// struct finished.
pub open spec fn unit_structs(dies: Seq<DieView>, sizes: Map<usize, u64>, refs: Map<usize, usize>) -> Seq<StructView> {
    flush(scan_upto(dies, dies.len() as int, sizes, refs)).out
}

/// The structs of the first `u` units.
pub open spec fn structs_upto(units: Seq<Seq<DieView>>, u: int, sizes: Map<usize, u64>, refs: Map<usize, usize>) -> Seq<
    StructView,
>
    decreases u,
{
    if u <= 0 || u > units.len() {
        Seq::empty()
    } else {
        structs_upto(units, u - 1, sizes, refs) + unit_structs(units[u - 1], sizes, refs)
    }
}

/// The struct layouts the units' entries describe (see `struct_step`):
/// sizes and type references are gathered over all units first.
pub open spec fn structs_of(units: Seq<Seq<DieView>>) -> Seq<StructView> {
    let n = units.len() as int;
    structs_upto(units, n, all_sizes(units, n), all_refs(units, n))
}

fn chase(sizes: &HashMap<usize, u64>, refs: &HashMap<usize, usize>, start: usize) -> (r: Option<u64>)
    ensures
        r == chase_size(sizes@, refs@, start, 10),
{
    let mut cur = start;
    let mut i: usize = 0;
    while i < 10
        invariant
            i <= 10,
            chase_size(sizes@, refs@, start, 10) == chase_size(sizes@, refs@, cur, (10 - i) as nat),
        decreases 10 - i,
    {
        if let Some(sz) = sizes.get(&cur) {
            return Some(*sz);
        }
        match refs.get(&cur) {
            Some(next) => {
                cur = *next;
            },
            None => {
                return None;
            },
        }
        i = i + 1;
    }
    None
}

/// The scan with the current struct finished (see `flush`).
fn flush_struct(cur: &mut Option<(String, bool)>, fields: &mut Vec<StructField>, out: &mut Vec<StructDef>)
    ensures
        flush(scan_of(*old(cur), old(fields)@, old(out)@)) == scan_of(*final(cur), final(fields)@, final(out)@),
{
    let ghost o = out@;
    if let Some((name, is_user)) = cur.take() {
        if fields.len() > 0 {
            let mut taken: Vec<StructField> = Vec::new();
            std::mem::swap(&mut taken, fields);
            let d = StructDef { name, is_user_defined: is_user, fields: taken };
            out.push(d);
            assert(out@.map_values(|d: StructDef| struct_view(d)) =~= o.map_values(|d: StructDef| struct_view(d)).push(
                struct_view(d),
            ));
            assert(fields@.map_values(|f: StructField| field_view(f)) =~= Seq::empty());
        }
    }
}

/// The scan state that exec values stand for.
pub open spec fn scan_of(cur: Option<(String, bool)>, fields: Seq<StructField>, out: Seq<StructDef>) -> StructScan {
    StructScan {
        cur: match cur {
            Some((n, u)) => Some((n@, u)),
            None => None,
        },
        fields: fields.map_values(|f: StructField| field_view(f)),
        out: out.map_values(|d: StructDef| struct_view(d)),
    }
}

/// The struct layouts that the units' entries describe (see
/// `structs_of`).
pub fn extract_structs(units: &Vec<Vec<Die>>) -> (r: Vec<StructDef>)
    ensures
        r@.map_values(|d: StructDef| struct_view(d)) == structs_of(
            units@.map_values(|u: Vec<Die>| u@.map_values(|d: Die| die_view(d))),
        ),
{
    let ghost us = units@.map_values(|u: Vec<Die>| u@.map_values(|d: Die| die_view(d)));
    let mut sizes: HashMap<usize, u64> = HashMap::new();
    let mut refs: HashMap<usize, usize> = HashMap::new();
    let mut u: usize = 0;
    while u < units.len()
        invariant
            u <= units@.len(),
            us == units@.map_values(|u: Vec<Die>| u@.map_values(|d: Die| die_view(d))),
            sizes@ == all_sizes(us, u as int),
            refs@ == all_refs(us, u as int),
        decreases units@.len() - u,
    {
        let dies = &units[u];
        let ghost dv = dies@.map_values(|d: Die| die_view(d));
        assert(us[u as int] == dv);
        let ghost s0 = sizes@;
        let ghost r0 = refs@;
        let mut k: usize = 0;
        while k < dies.len()
            invariant
                k <= dies@.len(),
                dv == dies@.map_values(|d: Die| die_view(d)),
                sizes@ == sizes_into(s0, dv, k as int),
                refs@ == refs_into(r0, dv, k as int),
            decreases dies@.len() - k,
        {
            let d = &dies[k];
            if let Some(sz) = d.byte_size {
                sizes.insert(d.offset, sz);
            }
            if let Some(t) = d.type_ref {
                refs.insert(d.offset, t);
            }
            k = k + 1;
        }
        u = u + 1;
    }
    let mut result: Vec<StructDef> = Vec::new();
    assert(result@.map_values(|d: StructDef| struct_view(d)) =~= Seq::empty());
    let mut u: usize = 0;
    while u < units.len()
        invariant
            u <= units@.len(),
            us == units@.map_values(|u: Vec<Die>| u@.map_values(|d: Die| die_view(d))),
            sizes@ == all_sizes(us, us.len() as int),
            refs@ == all_refs(us, us.len() as int),
            result@.map_values(|d: StructDef| struct_view(d)) == structs_upto(us, u as int, sizes@, refs@),
        decreases units@.len() - u,
    {
        let dies = &units[u];
        let ghost dv = dies@.map_values(|d: Die| die_view(d));
        assert(us[u as int] == dv);
        let ghost before = result@.map_values(|d: StructDef| struct_view(d));
        let mut cur: Option<(String, bool)> = None;
        let mut fields: Vec<StructField> = Vec::new();
        let mut out: Vec<StructDef> = Vec::new();
        assert(scan_of(cur, fields@, out@) =~= scan_upto(dv, 0, sizes@, refs@));
        let mut k: usize = 0;
        while k < dies.len()
            invariant
                k <= dies@.len(),
                dv == dies@.map_values(|d: Die| die_view(d)),
                scan_of(cur, fields@, out@) == scan_upto(dv, k as int, sizes@, refs@),
            decreases dies@.len() - k,
        {
            let d = &dies[k];
            let ghost st = scan_of(cur, fields@, out@);
            if d.tag == DW_TAG_STRUCTURE_TYPE {
                flush_struct(&mut cur, &mut fields, &mut out);
                fields.clear();
                cur = match &d.name {
                    Some(n) => Some((n.clone(), d.decl_file == Some(0u64))),
                    None => None,
                };
                assert(scan_of(cur, fields@, out@) =~= struct_step(st, die_view(*d), sizes@, refs@));
            } else if d.tag == DW_TAG_MEMBER && cur.is_some() {
                let (cur_name, cur_user) = cur.take().unwrap();
                let user = cur_user || d.decl_file == Some(0u64);
                let size = match d.type_ref {
                    Some(t) => chase(&sizes, &refs, t),
                    None => None,
                };
                let ghost f0 = fields@;
                if let (Some(name), Some(off), Some(sz)) = (&d.name, d.member_location, size) {
                    if sz == 1 || sz == 2 || sz == 4 || sz == 8 {
                        fields.push(StructField { name: name.clone(), offset: off, byte_size: sz });
                        assert(fields@.map_values(|f: StructField| field_view(f)) =~= f0.map_values(
                            |f: StructField| field_view(f),
                        ).push((name@, off, sz)));
                    }
                }
                cur = Some((cur_name, user));
                assert(scan_of(cur, fields@, out@) =~= struct_step(st, die_view(*d), sizes@, refs@));
            } else if cur.is_some() && d.tag != DW_TAG_MEMBER {
                flush_struct(&mut cur, &mut fields, &mut out);
            }
            k = k + 1;
        }
        flush_struct(&mut cur, &mut fields, &mut out);
        let ghost add = out@.map_values(|d: StructDef| struct_view(d));
        assert(add == unit_structs(dv, sizes@, refs@));
        let mut j: usize = 0;
        while j < out.len()
            invariant
                j <= out@.len(),
                add == out@.map_values(|d: StructDef| struct_view(d)),
                result@.map_values(|d: StructDef| struct_view(d)) == before + add.take(j as int),
            decreases out@.len() - j,
        {
            let d = StructDef {
                name: out[j].name.clone(),
                is_user_defined: out[j].is_user_defined,
                fields: copy_fields(&out[j].fields),
            };
            let ghost r0 = result@.map_values(|d: StructDef| struct_view(d));
            result.push(d);
            assert(result@.map_values(|d: StructDef| struct_view(d)) =~= r0.push(struct_view(d)));
            assert(add.take(j + 1) =~= add.take(j as int).push(add[j as int]));
            j = j + 1;
        }
        assert(add.take(j as int) =~= add);
        u = u + 1;
    }
    result
}

fn copy_fields(v: &Vec<StructField>) -> (r: Vec<StructField>)
    ensures
        r@.map_values(|f: StructField| field_view(f)) == v@.map_values(|f: StructField| field_view(f)),
{
    let mut r: Vec<StructField> = Vec::new();
    let mut i: usize = 0;
    while i < v.len()
        invariant
            i <= v@.len(),
            r@.map_values(|f: StructField| field_view(f)) == v@.map_values(|f: StructField| field_view(f)).take(
                i as int,
            ),
        decreases v@.len() - i,
    {
        let ghost r0 = r@.map_values(|f: StructField| field_view(f));
        assert(v@.map_values(|f: StructField| field_view(f)).take(i + 1) =~= v@.map_values(
            |f: StructField| field_view(f),
        ).take(i as int).push(field_view(v@[i as int])));
        r.push(StructField { name: v[i].name.clone(), offset: v[i].offset, byte_size: v[i].byte_size });
        assert(r@.map_values(|f: StructField| field_view(f)) =~= v@.map_values(|f: StructField| field_view(f)).take(
            i + 1,
        ));
        i = i + 1;
    }
    r
}

// ---------------------------------------------------------------------
// Reading the ELF file

/// The object crate's error for a malformed file.
#[verifier::external_type_specification]
#[verifier::external_body]
pub struct ExElfError(object::read::Error);

/// Why an ELF file yields no programmes.
#[derive(Debug)]
pub enum ParseError {
    /// The file, or a programme section's data, could not be read.
    Elf(object::read::Error),
    /// No section holds a programme.
    NoProgramSections,
    /// A programme section's size is not a multiple of 8 bytes.
    UnalignedSection(String),
}

impl ParseError {
    /// The error's text: for a file `object` could not read, its reason
    /// after `ELF parse error: `.
    pub fn message(&self) -> (r: String)
        ensures
            match self {
                ParseError::Elf(_) => r@.len() >= 17 && r@.take(17) == "ELF parse error: "@,
                ParseError::NoProgramSections => r@ == "no BPF program sections found"@,
                ParseError::UnalignedSection(name) => r@ == "section '"@ + name@ + "' data is not aligned to 8 bytes"@,
            },
    {
        match self {
            ParseError::Elf(e) => {
                let mut s = "ELF parse error: ".to_string();
                proof {
                    reveal_strlit("ELF parse error: ");
                }
                push_str(&mut s, elf_error_text(e).as_str());
                assert(s@.take(17) =~= "ELF parse error: "@);
                s
            },
            ParseError::NoProgramSections => "no BPF program sections found".to_string(),
            ParseError::UnalignedSection(name) => {
                let mut s = "section '".to_string();
                push_str(&mut s, name.as_str());
                push_str(&mut s, "' data is not aligned to 8 bytes");
                s
            },
        }
    }
}

/// Trusted: the text `object::read::Error`'s `Display` gives. Nothing is
/// claimed of it.
#[verifier::external_body]
fn elf_error_text(e: &object::read::Error) -> String
{
    e.to_string()
}

/// A section of an ELF file, as plain values.
pub struct SectionInfo {
    pub index: usize,
    /// The name, where it can be read.
    pub name: Option<String>,
    /// Whether the section holds code.
    pub is_text: bool,
    pub address: u64,
    /// The contents, or why they cannot be read.
    pub data: Result<Vec<u8>, object::read::Error>,
}

/// A section with its name and contents as sequences.
pub struct SectionView {
    pub index: usize,
    pub name: Option<Seq<char>>,
    pub is_text: bool,
    pub address: u64,
    pub data: Option<Seq<u8>>,
}

impl View for SectionInfo {
    type V = SectionView;

    open spec fn view(&self) -> SectionView {
        SectionView {
            index: self.index,
            name: match self.name {
                Some(n) => Some(n@),
                None => None,
            },
            is_text: self.is_text,
            address: self.address,
            data: match self.data {
                Ok(d) => Some(d@),
                Err(_) => None,
            },
        }
    }
}

/// The sections the object crate reads from an ELF file, or `None` where
/// it cannot parse the file.
pub uninterp spec fn elf_sections_of(data: Seq<u8>) -> Option<Seq<SectionView>>;

/// Trusted: calls `object::File::parse` and lists `sections()`, each with
/// its `index()`, `name()` (where readable), whether `kind()` is
/// `SectionKind::Text`, `address()` and `data()`. Claimed: the result
/// depends on the file's bytes alone (named `elf_sections_of`); which
/// sections the crate finds is not stated.
#[verifier::external_body]
fn elf_sections(data: &[u8]) -> (r: Result<Vec<SectionInfo>, object::read::Error>)
    ensures
        match r {
            Ok(v) => elf_sections_of(data@) == Some(v@.map_values(|s: SectionInfo| s@)),
            Err(_) => elf_sections_of(data@) is None,
        },
{
    let file = object::File::parse(data)?;
    Ok(file.sections().map(|s| SectionInfo {
        index: s.index().0,
        name: s.name().ok().map(String::from),
        is_text: s.kind() == object::SectionKind::Text,
        address: s.address(),
        data: s.data().map(|d| d.to_vec()),
    }).collect())
}

/// A symbol: its name (where readable) and the index of its section.
pub struct SymbolInfo {
    pub name: Option<String>,
    pub section: Option<usize>,
}

/// The symbol at an index of an ELF file's symbol table: its name (where
/// readable) and section index; `None` where there is none.
pub uninterp spec fn elf_symbol_of(data: Seq<u8>, index: usize) -> Option<(Option<Seq<char>>, Option<usize>)>;

/// Trusted: calls `object::File::parse` and `symbol_by_index`, then the
/// symbol's `name()` and `section_index()`. Claimed: the result depends on
/// the file's bytes and the index alone (named `elf_symbol_of`).
#[verifier::external_body]
fn elf_symbol(data: &[u8], index: usize) -> (r: Option<SymbolInfo>)
    ensures
        match r {
            Some(s) => elf_symbol_of(data@, index) == Some(
                (
                    match s.name {
                        Some(n) => Some(n@),
                        None => None,
                    },
                    s.section,
                ),
            ),
            None => elf_symbol_of(data@, index) is None,
        },
{
    let file = object::File::parse(data).ok()?;
    let sym = file.symbol_by_index(object::SymbolIndex(index)).ok()?;
    Some(SymbolInfo { name: sym.name().ok().map(String::from), section: sym.section_index().map(|i| i.0) })
}

/// The source file path and line that DWARF line information gives each
/// address, where it gives both.
pub uninterp spec fn dwarf_locations_of(data: Seq<u8>, addrs: Seq<u64>) -> Seq<Option<(Seq<char>, u32)>>;

/// Trusted: loads the file's DWARF sections with `gimli::Dwarf::load`,
/// builds an `addr2line::Context` from them, and asks `find_location` for
/// each address, keeping the location's file and line. Claimed: one
/// result per address, depending on the file's bytes and the addresses
/// alone (named `dwarf_locations_of`).
#[verifier::external_body]
fn dwarf_locations(data: &[u8], addrs: &[u64]) -> (r: Vec<Option<(String, u32)>>)
    ensures
        r@.len() == addrs@.len(),
        r@.map_values(|l: Option<(String, u32)>| match l {
            Some((f, n)) => Some((f@, n)),
            None => None,
        }) == dwarf_locations_of(data@, addrs@),
{
    let Ok(f) = File::parse(data) else { return vec![None; addrs.len()] };
    let d = Dwarf::load(|id| Ok::<_, ()>(EndianSlice::new(f.section_by_name(id.name()).and_then(|s| s.data().ok()).unwrap_or_default(), LittleEndian)));
    let ctx = d.ok().and_then(|d| addr2line::Context::from_dwarf(d).ok());
    let find = |a: &u64| ctx.as_ref()?.find_location(*a).ok()?.and_then(|l| Some((l.file?.to_string(), l.line?)));
    addrs.iter().map(find).collect()
}

/// The entries of DWARF unit `unit` (counting from 0), in depth-first
/// order, as their offset within the unit and their tag; `None` where the
/// file's DWARF has no such unit.
pub uninterp spec fn dwarf_entries_of(data: Seq<u8>, unit: usize) -> Option<Seq<(usize, u16)>>;

/// Trusted: loads the file's DWARF sections with `gimli::Dwarf::load`,
/// takes the unit at position `unit` of `units()` and walks its
/// `entries()` with `next_dfs`, keeping each entry's `offset()` and
/// `tag()`; a unit that cannot be read has no entries. Claimed: the result
/// depends on the file's bytes and the position alone (named
/// `dwarf_entries_of`).
#[verifier::external_body]
fn dwarf_entries(data: &[u8], unit: usize) -> (r: Option<Vec<(usize, u16)>>)
    ensures
        match r {
            Some(v) => dwarf_entries_of(data@, unit) == Some(v@),
            None => dwarf_entries_of(data@, unit) is None,
        },
{
    let f = File::parse(data).ok()?;
    let d = Dwarf::load(|id| Ok::<_, ()>(EndianSlice::new(f.section_by_name(id.name()).and_then(|s| s.data().ok()).unwrap_or_default(), LittleEndian))).ok()?;
    let Ok(u) = d.unit(d.units().nth(unit)?.ok()?) else { return Some(vec![]) };
    let mut c = u.entries();
    Some(from_fn(|| c.next_dfs().ok()?.map(|e| (e.offset().0, e.tag().0))).collect())
}

/// The `DW_AT_type` of each entry of DWARF unit `unit` where it refers
/// within the unit, as that offset, in the order of `dwarf_entries_of`.
pub uninterp spec fn dwarf_refs_of(data: Seq<u8>, unit: usize) -> Option<Seq<Option<usize>>>;

/// Trusted: walks the unit's entries as `dwarf_entries` does and keeps each
/// entry's `DW_AT_type` where it is an `AttributeValue::UnitRef`. Claimed:
/// the result depends on the file's bytes and the position alone (named
/// `dwarf_refs_of`).
#[verifier::external_body]
fn dwarf_refs(data: &[u8], unit: usize) -> (r: Option<Vec<Option<usize>>>)
    ensures
        match r {
            Some(v) => dwarf_refs_of(data@, unit) == Some(v@),
            None => dwarf_refs_of(data@, unit) is None,
        },
{
    let f = File::parse(data).ok()?;
    let d = Dwarf::load(|id| Ok::<_, ()>(EndianSlice::new(f.section_by_name(id.name()).and_then(|s| s.data().ok()).unwrap_or_default(), LittleEndian))).ok()?;
    let Ok(u) = d.unit(d.units().nth(unit)?.ok()?) else { return Some(vec![]) };
    let mut c = u.entries();
    Some(from_fn(|| c.next_dfs().ok()?.map(|e| match e.attr_value(DW_AT_type) { Some(AttributeValue::UnitRef(o)) => Some(o.0), _ => None })).collect())
}

/// The attribute `attr` of each entry of DWARF unit `unit` as a number (a
/// file index, or what `udata_value` reads), in the order of
/// `dwarf_entries_of`.
pub uninterp spec fn dwarf_numbers_of(data: Seq<u8>, unit: usize, attr: u16) -> Option<Seq<Option<u64>>>;

/// Trusted: walks the unit's entries as `dwarf_entries` does and keeps each
/// entry's attribute `attr` as a number: a `FileIndex`'s index, otherwise
/// `udata_value()`. Claimed: the result depends on the file's bytes, the
/// position and the attribute alone (named `dwarf_numbers_of`).
#[verifier::external_body]
fn dwarf_numbers(data: &[u8], unit: usize, attr: u16) -> (r: Option<Vec<Option<u64>>>)
    ensures
        match r {
            Some(v) => dwarf_numbers_of(data@, unit, attr) == Some(v@),
            None => dwarf_numbers_of(data@, unit, attr) is None,
        },
{
    let f = File::parse(data).ok()?;
    let d = Dwarf::load(|id| Ok::<_, ()>(EndianSlice::new(f.section_by_name(id.name()).and_then(|s| s.data().ok()).unwrap_or_default(), LittleEndian))).ok()?;
    let Ok(u) = d.unit(d.units().nth(unit)?.ok()?) else { return Some(vec![]) };
    let mut c = u.entries();
    Some(from_fn(|| c.next_dfs().ok()?.map(|e| match e.attr_value(DwAt(attr)) { Some(AttributeValue::FileIndex(i)) => Some(i), x => x?.udata_value() })).collect())
}

/// The `DW_AT_name` of each entry of DWARF unit `unit` as text, in the
/// order of `dwarf_entries_of`.
pub uninterp spec fn dwarf_names_of(data: Seq<u8>, unit: usize) -> Option<Seq<Option<Seq<char>>>>;

/// Trusted: walks the unit's entries as `dwarf_entries` does and keeps each
/// entry's `DW_AT_name` read with `attr_string` (lossily as UTF-8).
/// Claimed: the result depends on the file's bytes and the position alone
/// (named `dwarf_names_of`).
#[verifier::external_body]
fn dwarf_names(data: &[u8], unit: usize) -> (r: Option<Vec<Option<String>>>)
    ensures
        match r {
            Some(v) => dwarf_names_of(data@, unit) == Some(v@.map_values(|n: Option<String>| match n {
                Some(x) => Some(x@),
                None => None,
            })),
            None => dwarf_names_of(data@, unit) is None,
        },
{
    let f = File::parse(data).ok()?;
    let d = Dwarf::load(|id| Ok::<_, ()>(EndianSlice::new(f.section_by_name(id.name()).and_then(|s| s.data().ok()).unwrap_or_default(), LittleEndian))).ok()?;
    let Ok(u) = d.unit(d.units().nth(unit)?.ok()?) else { return Some(vec![]) };
    let mut c = u.entries();
    Some(from_fn(|| c.next_dfs().ok()?.map(|e| Some(d.attr_string(&u, e.attr_value(DW_AT_name)?).ok()?.to_string_lossy().into()))).collect())
}

// ---------------------------------------------------------------------
// Programmes

/// DWARF attribute: byte size.
pub const DW_AT_BYTE_SIZE: u16 = 0x0b;
/// DWARF attribute: the declaring file.
pub const DW_AT_DECL_FILE: u16 = 0x3a;
/// DWARF attribute: a member's location in its struct.
pub const DW_AT_DATA_MEMBER_LOCATION: u16 = 0x38;

/// A BPF programme: one code section's instructions, their source
/// locations, and the relocations of its LD_IMM64 instructions by
/// instruction index.
#[derive(Debug)]
pub struct BpfProgram {
    pub section_name: String,
    pub instructions: Vec<BpfInsn>,
    pub source_locs: Vec<Option<SourceLoc>>,
    pub relocations: HashMap<usize, RelocTarget>,
}

/// The programmes and struct layouts of an ELF object.
#[derive(Debug)]
pub struct BpfObject {
    pub programs: Vec<BpfProgram>,
    pub structs: Vec<StructDef>,
}

/// The smaller of two lengths.
pub open spec fn min_len(a: int, b: int) -> int {
    if a <= b { a } else { b }
}

/// The walk's list, or nothing where the walk gave none.
pub open spec fn or_empty<A>(o: Option<Seq<A>>) -> Seq<A> {
    match o {
        Some(s) => s,
        None => Seq::empty(),
    }
}

/// The entries of one DWARF unit as the walks over it describe them: the
/// walks go the same way, so entry `k` of each walk is entry `k` of the
/// unit; entries beyond the shortest walk are dropped.
pub open spec fn unit_dies(
    es: Seq<(usize, u16)>,
    ts: Seq<Option<usize>>,
    ns: Seq<Option<Seq<char>>>,
    bs: Seq<Option<u64>>,
    fs: Seq<Option<u64>>,
    ms: Seq<Option<u64>>,
) -> Seq<DieView> {
    let nd = min_len(
        min_len(min_len(es.len() as int, ns.len() as int), min_len(bs.len() as int, fs.len() as int)),
        min_len(ms.len() as int, ts.len() as int),
    );
    Seq::new(
        nd as nat,
        |k: int|
            DieView {
                offset: es[k].0,
                tag: es[k].1,
                name: ns[k],
                byte_size: bs[k],
                type_ref: ts[k],
                decl_file: fs[k],
                member_location: ms[k],
            },
    )
}

/// The entries of DWARF unit `u` of an ELF file (see `unit_dies`).
pub open spec fn dies_in_unit(data: Seq<u8>, u: usize) -> Seq<DieView> {
    unit_dies(
        or_empty(dwarf_entries_of(data, u)),
        or_empty(dwarf_refs_of(data, u)),
        or_empty(dwarf_names_of(data, u)),
        or_empty(dwarf_numbers_of(data, u, DW_AT_BYTE_SIZE)),
        or_empty(dwarf_numbers_of(data, u, DW_AT_DECL_FILE)),
        or_empty(dwarf_numbers_of(data, u, DW_AT_DATA_MEMBER_LOCATION)),
    )
}

/// The DWARF units of an ELF file from unit `u` on, up to the first that
/// is not there (a unit takes at least a byte of the file, so there are
/// fewer units than bytes).
pub open spec fn units_from(data: Seq<u8>, u: nat) -> Seq<Seq<DieView>>
    decreases data.len() - u,
{
    if u >= data.len() || u > usize::MAX || dwarf_entries_of(data, u as usize) is None {
        Seq::empty()
    } else {
        seq![dies_in_unit(data, u as usize)] + units_from(data, u + 1)
    }
}

/// The DWARF entries of an ELF file, unit by unit.
pub open spec fn file_dies(data: Seq<u8>) -> Seq<Seq<DieView>> {
    units_from(data, 0)
}

/// A walk's list, or an empty one where the walk gave none.
fn vec_or_empty<A>(o: Option<Vec<A>>) -> (r: Vec<A>)
    ensures
        r@ == or_empty(match o {
            Some(v) => Some(v@),
            None => None,
        }),
{
    match o {
        Some(v) => v,
        None => Vec::new(),
    }
}

/// Gather the entries of DWARF unit `u`, whose walk in order is `es`.
fn collect_unit(data: &[u8], u: usize, es: Vec<(usize, u16)>) -> (r: Vec<Die>)
    requires
        dwarf_entries_of(data@, u) == Some(es@),
    ensures
        r@.map_values(|d: Die| die_view(d)) == dies_in_unit(data@, u),
{
    let ts = vec_or_empty(dwarf_refs(data, u));
    let ns = vec_or_empty(dwarf_names(data, u));
    let bs = vec_or_empty(dwarf_numbers(data, u, DW_AT_BYTE_SIZE));
    let fs = vec_or_empty(dwarf_numbers(data, u, DW_AT_DECL_FILE));
    let ms = vec_or_empty(dwarf_numbers(data, u, DW_AT_DATA_MEMBER_LOCATION));
    let ghost nsv = ns@.map_values(|n: Option<String>| match n {
        Some(x) => Some(x@),
        None => None,
    });
    let ghost want = dies_in_unit(data@, u);
    assert(want == unit_dies(es@, ts@, nsv, bs@, fs@, ms@));
    let mut nd = es.len();
    if ns.len() < nd {
        nd = ns.len();
    }
    if bs.len() < nd {
        nd = bs.len();
    }
    if fs.len() < nd {
        nd = fs.len();
    }
    if ms.len() < nd {
        nd = ms.len();
    }
    if ts.len() < nd {
        nd = ts.len();
    }
    assert(nd == want.len());
    let mut v: Vec<Die> = Vec::new();
    let mut k: usize = 0;
    while k < nd
        invariant
            k <= nd == want.len(),
            nd <= es@.len() && nd <= ns@.len() && nd <= bs@.len() && nd <= fs@.len() && nd <= ms@.len() && nd
                <= ts@.len(),
            nsv == ns@.map_values(|n: Option<String>| match n {
                Some(x) => Some(x@),
                None => None,
            }),
            want == unit_dies(es@, ts@, nsv, bs@, fs@, ms@),
            v@.len() == k,
            forall|i: int| 0 <= i < k ==> die_view(#[trigger] v@[i]) == want[i],
        decreases nd - k,
    {
        let (offset, tag) = es[k];
        let name = match &ns[k] {
            Some(x) => Some(x.clone()),
            None => None,
        };
        let d = Die {
            offset,
            tag,
            name,
            byte_size: bs[k],
            type_ref: ts[k],
            decl_file: fs[k],
            member_location: ms[k],
        };
        assert(die_view(d) == want[k as int]);
        v.push(d);
        k = k + 1;
    }
    assert(v@.map_values(|d: Die| die_view(d)) =~= want);
    v
}

/// Gather the DWARF entries of an ELF file (see `file_dies`).
fn collect_dies(data: &[u8]) -> (r: Vec<Vec<Die>>)
    ensures
        r@.map_values(|u: Vec<Die>| u@.map_values(|d: Die| die_view(d))) == file_dies(data@),
{
    let mut out: Vec<Vec<Die>> = Vec::new();
    let mut u: usize = 0;
    while u < data.len()
        invariant
            u <= data@.len(),
            file_dies(data@) == out@.map_values(|w: Vec<Die>| w@.map_values(|d: Die| die_view(d))) + units_from(
                data@,
                u as nat,
            ),
        decreases data.len() - u,
    {
        match dwarf_entries(data, u) {
            None => {
                assert(units_from(data@, u as nat) =~= Seq::<Seq<DieView>>::empty());
                assert(units_from(data@, data@.len()) =~= Seq::<Seq<DieView>>::empty());
                u = data.len();
            },
            Some(es) => {
                let ghost before = out@.map_values(|w: Vec<Die>| w@.map_values(|d: Die| die_view(d)));
                let w = collect_unit(data, u, es);
                assert(units_from(data@, u as nat) == seq![dies_in_unit(data@, u)] + units_from(data@, (u + 1) as nat));
                out.push(w);
                assert(out@.map_values(|w: Vec<Die>| w@.map_values(|d: Die| die_view(d))) =~= before.push(
                    dies_in_unit(data@, u),
                ));
                assert(before + units_from(data@, u as nat) =~= before.push(dies_in_unit(data@, u)) + units_from(
                    data@,
                    (u + 1) as nat,
                ));
                u = u + 1;
            },
        }
    }
    assert(units_from(data@, u as nat) =~= Seq::<Seq<DieView>>::empty());
    assert(out@.map_values(|w: Vec<Die>| w@.map_values(|d: Die| die_view(d))) + units_from(data@, u as nat)
        =~= out@.map_values(|w: Vec<Die>| w@.map_values(|d: Die| die_view(d))));
    out
}

/// A relocation target with its name as a character sequence.
pub enum RelocView {
    MapFd(Seq<char>),
    Data(Seq<char>),
    CoreFieldOffset,
}

pub open spec fn reloc_view(t: RelocTarget) -> RelocView {
    match t {
        RelocTarget::MapFd { name } => RelocView::MapFd(name@),
        RelocTarget::Data { name } => RelocView::Data(name@),
        RelocTarget::CoreFieldOffset => RelocView::CoreFieldOffset,
    }
}

/// The target the last relocation entry at `offset` names.
pub open spec fn reloc_view_at(rel: Seq<(u64, RelocView)>, offset: u64) -> Option<RelocView>
    decreases rel.len(),
{
    if rel.len() == 0 {
        None
    } else if rel.last().0 == offset {
        Some(rel.last().1)
    } else {
        reloc_view_at(rel.drop_last(), offset)
    }
}

/// The relocations of the first `j` decoded instructions (see
/// `relocs_upto`), with their names as character sequences.
pub open spec fn reloc_views_upto(ds: Seq<(BpfInsn, u64)>, j: int, rel: Seq<(u64, RelocView)>, core: Seq<u32>) -> Map<
    usize,
    RelocView,
>
    decreases j,
{
    if j <= 0 || j > ds.len() {
        Map::empty()
    } else {
        let m = reloc_views_upto(ds, j - 1, rel, core);
        let (insn, off) = ds[j - 1];
        if insn.imm64 is Some {
            match reloc_view_at(rel, off) {
                Some(t) => m.insert((j - 1) as usize, t),
                None => if core.contains(off as u32) {
                    m.insert((j - 1) as usize, RelocView::CoreFieldOffset)
                } else {
                    m
                },
            }
        } else {
            m
        }
    }
}

pub open spec fn rel_views(rel: Seq<(u64, RelocTarget)>) -> Seq<(u64, RelocView)> {
    rel.map_values(|p: (u64, RelocTarget)| (p.0, reloc_view(p.1)))
}

proof fn lemma_reloc_at_view(rel: Seq<(u64, RelocTarget)>, offset: u64)
    ensures
        reloc_view_at(rel_views(rel), offset) == match reloc_at(rel, offset) {
            Some(t) => Some(reloc_view(t)),
            None => None,
        },
    decreases rel.len(),
{
    if rel.len() > 0 {
        assert(rel_views(rel).drop_last() =~= rel_views(rel.drop_last()));
        lemma_reloc_at_view(rel.drop_last(), offset);
    }
}

proof fn lemma_relocs_view(ds: Seq<(BpfInsn, u64)>, j: int, rel: Seq<(u64, RelocTarget)>, core: Seq<u32>)
    requires
        0 <= j <= ds.len(),
    ensures
        relocs_upto(ds, j, rel, core).map_values(|t: RelocTarget| reloc_view(t)) =~= reloc_views_upto(
            ds,
            j,
            rel_views(rel),
            core,
        ),
    decreases j,
{
    if j > 0 {
        lemma_relocs_view(ds, j - 1, rel, core);
        lemma_reloc_at_view(rel, ds[j - 1].1);
    }
}

/// Whether a section holds a programme: code with a name that is not
/// empty and does not start with `.`.
pub open spec fn program_section(s: SectionView) -> bool {
    s.is_text && s.name is Some && s.name->0.len() > 0 && !(s.name->0[0] == '.')
}

/// Whether `idx` is the index of a section named `.maps` or `maps`.
pub open spec fn is_map_index(secs: Seq<SectionView>, idx: usize) -> bool {
    exists|k: int|
        0 <= k < secs.len() && (#[trigger] secs[k]).index == idx && (secs[k].name == Some(".maps"@)
            || secs[k].name == Some("maps"@))
}

/// The position of the first section named `n`.
pub open spec fn first_named(secs: Seq<SectionView>, n: Seq<char>) -> Option<int>
    decreases secs.len(),
{
    if secs.len() == 0 {
        None
    } else if secs[0].name == Some(n) {
        Some(0)
    } else {
        match first_named(secs.drop_first(), n) {
            Some(i) => Some(i + 1),
            None => None,
        }
    }
}

/// The CO-RE relocations of the first `.BTF` and `.BTF.ext` sections,
/// where both are readable (see `core_relos_of`).
pub open spec fn btf_core(secs: Seq<SectionView>) -> Seq<(Seq<char>, u32)> {
    match (first_named(secs, ".BTF"@), first_named(secs, ".BTF.ext"@)) {
        (Some(i), Some(j)) => match (secs[i].data, secs[j].data) {
            (Some(b), Some(e)) => core_relos_of(b, e),
            _ => Seq::empty(),
        },
        _ => Seq::empty(),
    }
}

/// The CO-RE offsets recorded for section `name`, in order.
pub open spec fn core_offsets_of(pairs: Seq<(Seq<char>, u32)>, name: Seq<char>) -> Seq<u32>
    decreases pairs.len(),
{
    if pairs.len() == 0 {
        Seq::empty()
    } else if pairs.last().0 == name {
        core_offsets_of(pairs.drop_last(), name).push(pairs.last().1)
    } else {
        core_offsets_of(pairs.drop_last(), name)
    }
}

/// The targets of a REL section's entries: each entry's symbol, a map
/// where its section is a map section, data otherwise; entries whose
/// symbol cannot be read are dropped.
pub open spec fn entry_targets(data: Seq<u8>, secs: Seq<SectionView>, es: Seq<(u64, u32)>) -> Seq<(u64, RelocView)>
    decreases es.len(),
{
    if es.len() == 0 {
        Seq::empty()
    } else {
        let rest = entry_targets(data, secs, es.drop_first());
        match elf_symbol_of(data, es[0].1 as usize) {
            None => rest,
            Some((nm, sec)) => {
                let name = match nm {
                    Some(x) => x,
                    None => Seq::empty(),
                };
                let t = if sec is Some && is_map_index(secs, sec->0) {
                    RelocView::MapFd(name)
                } else {
                    RelocView::Data(name)
                };
                seq![(es[0].0, t)] + rest
            },
        }
    }
}

/// Whether a section is the REL section of programme section `name`:
/// named `.rel` or `.rel.` followed by the name.
pub open spec fn rel_section_of(s: SectionView, name: Seq<char>) -> bool {
    s.name == Some(".rel"@ + name) || s.name == Some(".rel."@ + name)
}

/// The relocation entries for programme section `name` in the first `k`
/// sections: those of each readable REL section of it, in order.
pub open spec fn rel_list(data: Seq<u8>, secs: Seq<SectionView>, name: Seq<char>, k: int) -> Seq<(u64, RelocView)>
    decreases k,
{
    if k <= 0 || k > secs.len() {
        Seq::empty()
    } else {
        rel_list(data, secs, name, k - 1) + if rel_section_of(secs[k - 1], name) && secs[k - 1].data is Some {
            entry_targets(data, secs, rel_entries_from(secs[k - 1].data->0, 0))
        } else {
            Seq::empty()
        }
    }
}

/// A source location with its texts as character sequences.
pub struct LocView {
    pub file: Seq<char>,
    pub path: Seq<char>,
    pub line: u32,
}

pub open spec fn loc_view(l: Option<SourceLoc>) -> Option<LocView> {
    match l {
        Some(x) => Some(LocView { file: x.file@, path: x.path@, line: x.line }),
        None => None,
    }
}

/// The part of a path after its last `/`.
pub open spec fn basename(p: Seq<char>) -> Seq<char>
    decreases p.len(),
{
    if p.len() == 0 {
        p
    } else if p.last() == '/' {
        Seq::empty()
    } else {
        basename(p.drop_last()).push(p.last())
    }
}

/// A programme with its texts as sequences.
pub struct ProgramView {
    pub section_name: Seq<char>,
    pub instructions: Seq<BpfInsn>,
    pub source_locs: Seq<Option<LocView>>,
    pub relocations: Map<usize, RelocView>,
}

pub open spec fn program_view(p: BpfProgram) -> ProgramView {
    ProgramView {
        section_name: p.section_name@,
        instructions: p.instructions@,
        source_locs: p.source_locs@.map_values(|l: Option<SourceLoc>| loc_view(l)),
        relocations: p.relocations@.map_values(|t: RelocTarget| reloc_view(t)),
    }
}

/// The programme a section holds: its decoded instructions (see
/// `decode_from`), their source locations at the section's address plus
/// their offsets, and their relocations (see `relocs_upto`).
pub open spec fn program_of(data: Seq<u8>, secs: Seq<SectionView>, s: SectionView) -> ProgramView {
    let name = s.name->0;
    let ds = decode_from(s.data->0, 0);
    let addrs = ds.map_values(|d: (BpfInsn, u64)| vstd::wrapping::u64_specs::wrapping_add(s.address, d.1));
    ProgramView {
        section_name: name,
        instructions: ds.map_values(|d: (BpfInsn, u64)| d.0),
        source_locs: dwarf_locations_of(data, addrs).map_values(|l: Option<(Seq<char>, u32)>| match l {
            Some((p, n)) => Some(LocView { file: basename(p), path: p, line: n }),
            None => None,
        }),
        relocations: reloc_views_upto(
            ds,
            ds.len() as int,
            rel_list(data, secs, name, secs.len() as int),
            core_offsets_of(btf_core(secs), name),
        ),
    }
}

/// Why an ELF file yields no programmes, without the object crate's error.
pub enum ParseErrorView {
    Elf,
    NoProgramSections,
    UnalignedSection(Seq<char>),
}

/// The programmes of the first `k` sections, or the first error: a
/// programme section whose data cannot be read, or whose size is not a
/// multiple of 8.
pub open spec fn programs_upto(data: Seq<u8>, secs: Seq<SectionView>, k: int) -> Result<Seq<ProgramView>, ParseErrorView>
    decreases k,
{
    if k <= 0 || k > secs.len() {
        Ok(Seq::empty())
    } else {
        match programs_upto(data, secs, k - 1) {
            Err(e) => Err(e),
            Ok(ps) => {
                let s = secs[k - 1];
                if !program_section(s) {
                    Ok(ps)
                } else if s.data is None {
                    Err(ParseErrorView::Elf)
                } else if s.data->0.len() % 8 != 0 {
                    Err(ParseErrorView::UnalignedSection(s.name->0))
                } else {
                    Ok(ps.push(program_of(data, secs, s)))
                }
            },
        }
    }
}

/// What an ELF file parses to: an error where the object crate cannot
/// read it, or a programme section cannot be read or is unaligned, or
/// there is no programme section; otherwise its programmes and the
/// struct layouts of its DWARF (see `structs_of`).
pub open spec fn elf_object_of(data: Seq<u8>) -> Result<(Seq<ProgramView>, Seq<StructView>), ParseErrorView> {
    match elf_sections_of(data) {
        None => Err(ParseErrorView::Elf),
        Some(secs) => match programs_upto(data, secs, secs.len() as int) {
            Err(e) => Err(e),
            Ok(ps) => if ps.len() == 0 {
                Err(ParseErrorView::NoProgramSections)
            } else {
                Ok((ps, structs_of(file_dies(data))))
            },
        },
    }
}

pub open spec fn parse_view(r: Result<BpfObject, ParseError>) -> Result<(Seq<ProgramView>, Seq<StructView>), ParseErrorView> {
    match r {
        Ok(o) => Ok((
            o.programs@.map_values(|p: BpfProgram| program_view(p)),
            o.structs@.map_values(|d: StructDef| struct_view(d)),
        )),
        Err(ParseError::Elf(_)) => Err(ParseErrorView::Elf),
        Err(ParseError::NoProgramSections) => Err(ParseErrorView::NoProgramSections),
        Err(ParseError::UnalignedSection(n)) => Err(ParseErrorView::UnalignedSection(n@)),
    }
}

pub open spec fn secs_view(secs: Seq<SectionInfo>) -> Seq<SectionView> {
    secs.map_values(|s: SectionInfo| s@)
}

/// Whether a section's name is `n`.
fn named(s: &SectionInfo, n: &str) -> (b: bool)
    ensures
        b == (s@.name == Some(n@)),
{
    match &s.name {
        Some(x) => crate::text::str_eq(x.as_str(), n),
        None => false,
    }
}

/// The position of the first section named `n` (see `first_named`).
fn find_named(secs: &Vec<SectionInfo>, n: &str) -> (r: Option<usize>)
    ensures
        match r {
            Some(i) => i < secs@.len() && first_named(secs_view(secs@), n@) == Some(i as int),
            None => first_named(secs_view(secs@), n@) is None,
        },
{
    let ghost sv = secs_view(secs@);
    let mut i: usize = 0;
    assert(sv.skip(0) =~= sv);
    while i < secs.len()
        invariant
            i <= secs@.len(),
            sv == secs_view(secs@),
            first_named(sv, n@) == match first_named(sv.skip(i as int), n@) {
                Some(j) => Some(j + i),
                None => None,
            },
        decreases secs@.len() - i,
    {
        assert(sv.skip(i as int).drop_first() =~= sv.skip(i + 1));
        assert(sv.skip(i as int)[0] == secs@[i as int]@);
        if named(&secs[i], n) {
            return Some(i);
        }
        i = i + 1;
    }
    assert(sv.skip(i as int) =~= Seq::<SectionView>::empty());
    None
}

/// The CO-RE relocations of the file's `.BTF` and `.BTF.ext` sections
/// (see `btf_core`).
fn btf_core_pairs(secs: &Vec<SectionInfo>) -> (r: Vec<(String, u32)>)
    ensures
        r@.map_values(|p: (String, u32)| (p.0@, p.1)) == btf_core(secs_view(secs@)),
{
    let ghost sv = secs_view(secs@);
    let empty: Vec<(String, u32)> = Vec::new();
    assert(empty@.map_values(|p: (String, u32)| (p.0@, p.1)) =~= Seq::empty());
    let i = match find_named(secs, ".BTF") {
        Some(i) => i,
        None => {
            return empty;
        },
    };
    let j = match find_named(secs, ".BTF.ext") {
        Some(j) => j,
        None => {
            return empty;
        },
    };
    assert(sv[i as int] == secs@[i as int]@ && sv[j as int] == secs@[j as int]@);
    match (&secs[i].data, &secs[j].data) {
        (Ok(b), Ok(e)) => parse_btf_ext_core_relos(b.as_slice(), e.as_slice()),
        _ => empty,
    }
}

/// The CO-RE offsets recorded for section `name` (see `core_offsets_of`).
fn core_offsets(pairs: &Vec<(String, u32)>, name: &str) -> (r: Vec<u32>)
    ensures
        r@ == core_offsets_of(pairs@.map_values(|p: (String, u32)| (p.0@, p.1)), name@),
{
    let ghost pv = pairs@.map_values(|p: (String, u32)| (p.0@, p.1));
    let mut r: Vec<u32> = Vec::new();
    let mut i: usize = 0;
    while i < pairs.len()
        invariant
            i <= pairs@.len(),
            pv == pairs@.map_values(|p: (String, u32)| (p.0@, p.1)),
            r@ == core_offsets_of(pv.take(i as int), name@),
        decreases pairs@.len() - i,
    {
        assert(pv.take(i + 1).drop_last() =~= pv.take(i as int));
        assert(pv.take(i + 1).last() == pv[i as int]);
        if crate::text::str_eq(pairs[i].0.as_str(), name) {
            r.push(pairs[i].1);
        }
        i = i + 1;
    }
    assert(pv.take(i as int) =~= pv);
    r
}

/// Whether `idx` is the index of a map section (see `is_map_index`).
fn map_index(secs: &Vec<SectionInfo>, idx: usize) -> (b: bool)
    ensures
        b == is_map_index(secs_view(secs@), idx),
{
    let ghost sv = secs_view(secs@);
    let mut k: usize = 0;
    while k < secs.len()
        invariant
            k <= secs@.len(),
            sv == secs_view(secs@),
            forall|j: int|
                0 <= j < k ==> !((#[trigger] sv[j]).index == idx && (sv[j].name == Some(".maps"@) || sv[j].name
                    == Some("maps"@))),
        decreases secs@.len() - k,
    {
        assert(sv[k as int] == secs@[k as int]@);
        if secs[k].index == idx && (named(&secs[k], ".maps") || named(&secs[k], "maps")) {
            return true;
        }
        k = k + 1;
    }
    false
}

/// The targets of a REL section's entries (see `entry_targets`).
fn entry_targets_of(data: &[u8], secs: &Vec<SectionInfo>, es: &Vec<(u64, u32)>) -> (r: Vec<(u64, RelocTarget)>)
    ensures
        rel_views(r@) == entry_targets(data@, secs_view(secs@), es@),
{
    let mut r: Vec<(u64, RelocTarget)> = Vec::new();
    let mut k: usize = 0;
    assert(es@.skip(0) =~= es@);
    while k < es.len()
        invariant
            k <= es@.len(),
            entry_targets(data@, secs_view(secs@), es@) == rel_views(r@) + entry_targets(
                data@,
                secs_view(secs@),
                es@.skip(k as int),
            ),
        decreases es@.len() - k,
    {
        assert(es@.skip(k as int).drop_first() =~= es@.skip(k + 1));
        assert(es@.skip(k as int)[0] == es@[k as int]);
        let (offset, sym) = es[k];
        let ghost before = rel_views(r@);
        if let Some(info) = elf_symbol(data, sym as usize) {
            let name = match info.name {
                Some(x) => x,
                None => String::new(),
            };
            let is_map = match info.section {
                Some(si) => map_index(secs, si),
                None => false,
            };
            let t = if is_map {
                RelocTarget::MapFd { name }
            } else {
                RelocTarget::Data { name }
            };
            r.push((offset, t));
            assert(rel_views(r@) =~= before.push((offset, reloc_view(t))));
        }
        k = k + 1;
    }
    r
}

/// The relocation entries for programme section `name` (see `rel_list`).
fn reloc_entries_for(data: &[u8], secs: &Vec<SectionInfo>, name: &str) -> (r: Vec<(u64, RelocTarget)>)
    ensures
        rel_views(r@) == rel_list(data@, secs_view(secs@), name@, secs@.len() as int),
{
    let ghost sv = secs_view(secs@);
    let mut r: Vec<(u64, RelocTarget)> = Vec::new();
    assert(rel_views(r@) =~= Seq::empty());
    let mut k: usize = 0;
    while k < secs.len()
        invariant
            k <= secs@.len(),
            sv == secs_view(secs@),
            rel_views(r@) == rel_list(data@, sv, name@, k as int),
        decreases secs@.len() - k,
    {
        let s = &secs[k];
        assert(sv[k as int] == s@);
        let mut plain = chars_of(".rel");
        crate::verify::scan::append(&mut plain, chars_of(name).as_slice());
        let mut dotted = chars_of(".rel.");
        crate::verify::scan::append(&mut dotted, chars_of(name).as_slice());
        let is_rel = match &s.name {
            Some(n) => {
                let nv = chars_of(n.as_str());
                eq_chars(nv.as_slice(), plain.as_slice()) || eq_chars(nv.as_slice(), dotted.as_slice())
            },
            None => false,
        };
        if is_rel {
            if let Ok(d) = &s.data {
                let es = parse_rel_entries(d.as_slice());
                let ts = entry_targets_of(data, secs, &es);
                let ghost before = rel_views(r@);
                let mut i: usize = 0;
                while i < ts.len()
                    invariant
                        i <= ts@.len(),
                        rel_views(r@) == before + rel_views(ts@).take(i as int),
                    decreases ts@.len() - i,
                {
                    let ghost r0 = rel_views(r@);
                    r.push((ts[i].0, ts[i].1.dup()));
                    assert(rel_views(r@) =~= r0.push(rel_views(ts@)[i as int]));
                    assert(rel_views(ts@).take(i + 1) =~= rel_views(ts@).take(i as int).push(rel_views(ts@)[i as int]));
                    i = i + 1;
                }
                assert(rel_views(ts@).take(i as int) =~= rel_views(ts@));
            }
        }
        k = k + 1;
    }
    r
}

/// A source location from a path and a line; the file is the path's
/// base name (see `basename`).
fn source_loc(path: String, line: u32) -> (r: SourceLoc)
    ensures
        r.path@ == path@,
        r.file@ == basename(path@),
        r.line == line,
{
    let v = chars_of(path.as_str());
    let mut k: usize = v.len();
    assert(v@.take(k as int) =~= v@);
    while k > 0 && v[k - 1] != '/'
        invariant
            k <= v@.len(),
            basename(v@) == basename(v@.take(k as int)) + v@.skip(k as int),
        decreases k,
    {
        assert(v@.take(k as int).drop_last() =~= v@.take(k - 1));
        assert(v@.skip(k - 1) =~= seq![v@[k - 1]] + v@.skip(k as int));
        k = k - 1;
    }
    let file = slice_of(v.as_slice(), k, v.len());
    assert(file@ =~= v@.skip(k as int));
    SourceLoc { file: string_of(file.as_slice()), path, line }
}

/// Parse an ELF object and extract its BPF programmes (see
/// `elf_object_of`): each code section whose name is not empty and does
/// not start with `.` holds one, decoded from 8-byte little-endian slots.
pub fn parse_elf(data: &[u8]) -> (r: Result<BpfObject, ParseError>)
    ensures
        parse_view(r) == elf_object_of(data@),
{
    let secs = match elf_sections(data) {
        Ok(v) => v,
        Err(e) => {
            return Err(ParseError::Elf(e));
        },
    };
    let ghost sv = secs_view(secs@);
    let structs = extract_structs(&collect_dies(data));
    let core = btf_core_pairs(&secs);
    let mut programs: Vec<BpfProgram> = Vec::new();
    assert(programs@.map_values(|p: BpfProgram| program_view(p)) =~= Seq::empty());
    let mut i: usize = 0;
    while i < secs.len()
        invariant
            i <= secs@.len(),
            sv == secs_view(secs@),
            elf_sections_of(data@) == Some(sv),
            core@.map_values(|p: (String, u32)| (p.0@, p.1)) == btf_core(sv),
            programs_upto(data@, sv, i as int) == Ok::<Seq<ProgramView>, ParseErrorView>(
                programs@.map_values(|p: BpfProgram| program_view(p)),
            ),
        decreases secs@.len() - i,
    {
        let sec = &secs[i];
        assert(sv[i as int] == sec@);
        let ghost before = programs@.map_values(|p: BpfProgram| program_view(p));
        let name = match &sec.name {
            Some(n) => n,
            None => {
                i = i + 1;
                continue;
            },
        };
        let nv = chars_of(name.as_str());
        if !sec.is_text || nv.len() == 0 || nv[0] == '.' {
            i = i + 1;
            continue;
        }
        let bytes = match &sec.data {
            Ok(d) => d,
            Err(e) => {
                proof {
                    lemma_programs_err(data@, sv, i + 1, sv.len() as int);
                }
                return Err(ParseError::Elf(*e));
            },
        };
        if bytes.len() % 8 != 0 {
            proof {
                lemma_programs_err(data@, sv, i + 1, sv.len() as int);
            }
            return Err(ParseError::UnalignedSection(name.clone()));
        }
        let rel = reloc_entries_for(data, &secs, name.as_str());
        let core_offs = core_offsets(&core, name.as_str());
        let (instructions, offsets, relocations) = decode_section(bytes.as_slice(), &rel, &core_offs);
        let ghost ds = decode_from(bytes@, 0);
        let mut addrs: Vec<u64> = Vec::new();
        let mut k: usize = 0;
        while k < offsets.len()
            invariant
                k <= offsets@.len() == ds.len(),
                forall|j: int| 0 <= j < offsets@.len() ==> offsets@[j] == ds[j].1,
                addrs@ == ds.map_values(|d: (BpfInsn, u64)| vstd::wrapping::u64_specs::wrapping_add(sec.address, d.1)).take(k as int),
            decreases offsets@.len() - k,
        {
            addrs.push(sec.address.wrapping_add(offsets[k]));
            assert(addrs@ =~= ds.map_values(|d: (BpfInsn, u64)| vstd::wrapping::u64_specs::wrapping_add(sec.address, d.1)).take(k + 1));
            k = k + 1;
        }
        let ghost av = ds.map_values(|d: (BpfInsn, u64)| vstd::wrapping::u64_specs::wrapping_add(sec.address, d.1));
        assert(addrs@ =~= av);
        let locs = dwarf_locations(data, addrs.as_slice());
        let ghost lv = dwarf_locations_of(data@, av);
        let mut source_locs: Vec<Option<SourceLoc>> = Vec::new();
        let mut locs = locs;
        let ghost want = lv.map_values(|l: Option<(Seq<char>, u32)>| match l {
            Some((p, n)) => Some(LocView { file: basename(p), path: p, line: n }),
            None => None,
        });
        let ghost lsv = locs@.map_values(|l: Option<(String, u32)>| match l {
            Some((f, n)) => Some((f@, n)),
            None => None,
        });
        assert(lsv == lv);
        let mut k: usize = 0;
        let n = locs.len();
        while k < n
            invariant
                n == locs@.len(),
                k <= n,
                lsv == lv,
                want == lv.map_values(|l: Option<(Seq<char>, u32)>| match l {
                    Some((p, n)) => Some(LocView { file: basename(p), path: p, line: n }),
                    None => None,
                }),
                forall|j: int| k <= j < n ==> (match locs@[j] {
                    Some((f, m)) => Some((f@, m)),
                    None => None,
                }) == lv[j],
                lv.len() == n,
                source_locs@.map_values(|l: Option<SourceLoc>| loc_view(l)) == want.take(k as int),
            decreases n - k,
        {
            let mut slot: Option<(String, u32)> = None;
            let ghost old_k = locs@[k as int];
            std::mem::swap(&mut slot, &mut locs[k]);
            assert(slot == old_k);
            let ghost s0 = source_locs@.map_values(|l: Option<SourceLoc>| loc_view(l));
            let loc = match slot {
                Some((path, line)) => Some(source_loc(path, line)),
                None => None,
            };
            assert(loc_view(loc) == want[k as int]);
            let ghost lv0 = loc_view(loc);
            source_locs.push(loc);
            assert(source_locs@.map_values(|l: Option<SourceLoc>| loc_view(l)) =~= s0.push(lv0));
            assert(want.take(k + 1) =~= want.take(k as int).push(want[k as int]));
            k = k + 1;
        }
        assert(want.take(k as int) =~= want);
        proof {
            lemma_relocs_view(ds, ds.len() as int, rel@, core_offs@);
        }
        let prog = BpfProgram { section_name: name.clone(), instructions, source_locs, relocations };
        assert(program_view(prog).instructions =~= ds.map_values(|d: (BpfInsn, u64)| d.0));
        assert(program_view(prog) == program_of(data@, sv, sv[i as int]));
        programs.push(prog);
        assert(programs@.map_values(|p: BpfProgram| program_view(p)) =~= before.push(program_view(prog)));
        i = i + 1;
    }
    if programs.len() == 0 {
        return Err(ParseError::NoProgramSections);
    }
    Ok(BpfObject { programs, structs })
}

/// Once reading the sections fails, it stays failed.
proof fn lemma_programs_err(data: Seq<u8>, secs: Seq<SectionView>, a: int, b: int)
    requires
        0 < a <= b <= secs.len(),
        programs_upto(data, secs, a) is Err,
    ensures
        programs_upto(data, secs, b) == programs_upto(data, secs, a),
    decreases b - a,
{
    if b > a {
        lemma_programs_err(data, secs, a, b - 1);
    }
}

} // verus!
