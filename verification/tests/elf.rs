use bpf_verifier::bpf::instruction::{AluOp, Opcode, Source};
use bpf_verifier::elf::parser::{parse_elf, ParseError, RelocTarget};
use object::write::{Object, Relocation, Symbol, SymbolSection};
use object::{
    Architecture, BinaryFormat, Endianness, RelocationFlags, SectionFlags, SectionKind, SymbolFlags, SymbolKind,
    SymbolScope,
};

/// Encode a BPF instruction into its 64-bit little-endian representation.
fn encode_insn(opcode: u8, dst: u8, src: u8, offset: i16, imm: i32) -> u64 {
    let mut bytes = [0u8; 8];
    bytes[0] = opcode;
    bytes[1] = (src << 4) | (dst & 0x0f);
    bytes[2..4].copy_from_slice(&offset.to_le_bytes());
    bytes[4..8].copy_from_slice(&imm.to_le_bytes());
    u64::from_le_bytes(bytes)
}

/// Build a minimal ELF with one text section holding the given bytes.
fn build_test_elf(section_name: &str, insn_data: &[u8]) -> Vec<u8> {
    let mut obj = Object::new(BinaryFormat::Elf, Architecture::Bpf, Endianness::Little);
    let section_id = obj.add_section(Vec::new(), section_name.as_bytes().to_vec(), SectionKind::Text);
    obj.section_mut(section_id).set_data(insn_data.to_vec(), 8);
    obj.section_mut(section_id).flags =
        SectionFlags::Elf { sh_type: object::elf::SHT_PROGBITS, sh_flags: object::elf::SHF_ALLOC | object::elf::SHF_EXECINSTR };
    let mut buf = Vec::new();
    obj.emit(&mut buf).expect("failed to emit test ELF");
    buf
}

#[test]
fn parse_simple_alu_program() {
    let mov = encode_insn(0xbf, 0, 1, 0, 0);
    let add = encode_insn(0x0f, 0, 2, 0, 0);
    let exit = encode_insn(0x95, 0, 0, 0, 0);
    let mut insn_bytes = Vec::new();
    insn_bytes.extend_from_slice(&mov.to_le_bytes());
    insn_bytes.extend_from_slice(&add.to_le_bytes());
    insn_bytes.extend_from_slice(&exit.to_le_bytes());
    let elf_data = build_test_elf("test_prog", &insn_bytes);
    let result = parse_elf(&elf_data).expect("parse_elf should succeed");
    assert_eq!(result.programs.len(), 1);
    let prog = &result.programs[0];
    assert_eq!(prog.section_name, "test_prog");
    assert_eq!(prog.instructions.len(), 3);
    assert!(matches!(prog.instructions[0].opcode, Opcode::Alu64(AluOp::Mov, Source::Reg)));
    assert!(matches!(prog.instructions[1].opcode, Opcode::Alu64(AluOp::Add, Source::Reg)));
    assert!(matches!(prog.instructions[2].opcode, Opcode::Exit));
}

#[test]
fn parse_empty_elf_fails() {
    let obj = Object::new(BinaryFormat::Elf, Architecture::Bpf, Endianness::Little);
    let mut elf_data = Vec::new();
    obj.emit(&mut elf_data).expect("failed to emit empty ELF");
    let result = parse_elf(&elf_data);
    assert!(result.is_err());
    assert!(matches!(result.unwrap_err(), ParseError::NoProgramSections));
}

#[test]
fn ld_imm64_relocations_name_maps_and_data() {
    let mut insn_bytes = Vec::new();
    for raw in [
        encode_insn(0x18, 1, 1, 0, 0),
        0,
        encode_insn(0x18, 2, 0, 0, 0),
        0,
        encode_insn(0xb7, 0, 0, 0, 0),
        encode_insn(0x95, 0, 0, 0, 0),
    ] {
        insn_bytes.extend_from_slice(&raw.to_le_bytes());
    }
    let mut obj = Object::new(BinaryFormat::Elf, Architecture::Bpf, Endianness::Little);
    let text = obj.add_section(Vec::new(), b"xdp".to_vec(), SectionKind::Text);
    obj.section_mut(text).set_data(insn_bytes, 8);
    obj.section_mut(text).flags =
        SectionFlags::Elf { sh_type: object::elf::SHT_PROGBITS, sh_flags: object::elf::SHF_ALLOC | object::elf::SHF_EXECINSTR };
    let maps = obj.add_section(Vec::new(), b".maps".to_vec(), SectionKind::Data);
    let rodata = obj.add_section(Vec::new(), b".rodata".to_vec(), SectionKind::ReadOnlyData);
    let symbol = |name: &str| Symbol {
        name: name.as_bytes().to_vec(),
        value: 0,
        size: 0,
        kind: SymbolKind::Data,
        scope: SymbolScope::Linkage,
        weak: false,
        section: SymbolSection::Undefined,
        flags: SymbolFlags::None,
    };
    let map_sym = obj.add_symbol(symbol("events"));
    obj.add_symbol_data(map_sym, maps, &[0u8; 32], 8);
    let data_sym = obj.add_symbol(symbol("greeting"));
    obj.add_symbol_data(data_sym, rodata, b"hello\0\0\0", 8);
    let flags = RelocationFlags::Elf { r_type: object::elf::R_BPF_64_64 };
    obj.add_relocation(text, Relocation { offset: 0, symbol: map_sym, addend: 0, flags }).unwrap();
    obj.add_relocation(text, Relocation { offset: 16, symbol: data_sym, addend: 0, flags }).unwrap();
    let mut elf_data = Vec::new();
    obj.emit(&mut elf_data).expect("failed to emit test ELF");

    let parsed = parse_elf(&elf_data).expect("parse_elf should succeed");
    assert_eq!(parsed.programs.len(), 1);
    let prog = &parsed.programs[0];
    assert_eq!(prog.section_name, "xdp");
    assert_eq!(prog.instructions.len(), 4);
    assert!(matches!(prog.instructions[0].opcode, Opcode::LdImm64));
    assert_eq!(prog.relocations.len(), 2);
    assert!(matches!(prog.relocations.get(&0), Some(RelocTarget::MapFd { name }) if name == "events"));
    assert!(matches!(prog.relocations.get(&1), Some(RelocTarget::Data { name }) if name == "greeting"));
}

#[test]
fn unaligned_programme_section_is_an_error() {
    let elf_data = build_test_elf("xdp", &[0x95, 0, 0, 0, 0, 0, 0, 0, 0, 0, 0, 0]);
    match parse_elf(&elf_data) {
        Err(ParseError::UnalignedSection(name)) => assert_eq!(name, "xdp"),
        Err(e) => panic!("unexpected error {}", e.message()),
        Ok(_) => panic!("expected an error"),
    }
}
