use std::collections::HashMap;

use bpf_verifier::bpf::instruction::BpfInsn;
use bpf_verifier::elf::parser::{BpfProgram, SourceLoc};
use bpf_verifier::pipeline::{dwarf_path, loc_file, loc_line, program_module, resolve_spec_module, safe_name};
use bpf_verifier::select::{find_program, parse_spec_args, select_programs, spec_for};

fn program(name: &str, raw: &[u64]) -> BpfProgram {
    BpfProgram {
        section_name: name.to_string(),
        instructions: raw.iter().map(|r| BpfInsn::decode(*r).unwrap()).collect(),
        source_locs: vec![None; raw.len()],
        relocations: HashMap::new(),
    }
}

fn loc(file: &str, path: &str, line: u32) -> Option<SourceLoc> {
    Some(SourceLoc { file: file.to_string(), path: path.to_string(), line })
}

#[test]
fn spec_module_from_spec_file_stem() {
    assert_eq!(resolve_spec_module(Some("specs/AddRegs.fst")), ("AddRegs".to_string(), "spec".to_string()));
    assert_eq!(resolve_spec_module(Some("a.b.fst")), ("a.b".to_string(), "spec".to_string()));
    assert_eq!(resolve_spec_module(Some("dir/.hidden")), (".hidden".to_string(), "spec".to_string()));
    assert_eq!(resolve_spec_module(Some("/")), ("Spec".to_string(), "spec".to_string()));
    assert_eq!(resolve_spec_module(None), ("BPF.DefaultSpec".to_string(), "spec".to_string()));
}

#[test]
fn safe_name_replaces_slashes() {
    assert_eq!(safe_name("tracepoint/syscalls/sys_enter"), "tracepoint_syscalls_sys_enter");
    assert_eq!(safe_name("xdp"), "xdp");
}

#[test]
fn program_module_for_in_bounds_programme() {
    let prog = program("xdp/pass", &[0x0000_0000_0000_00b7, 0x0000_0000_0000_0095]);
    let module = program_module(&prog, "Pass", "spec").unwrap();
    assert!(module.starts_with("module Verify_xdp_pass\n"));
    assert!(module.contains("open Pass\n"));
    assert!(module.contains("program_satisfies program spec"));
}

#[test]
fn program_module_names_out_of_bounds_instruction() {
    let prog = program(
        "xdp",
        &[0x0000_0000_0000_00b7, 0x0000_0000_0000_00b7, 0x0000_0000_0008_1a7b, 0x0000_0000_0000_0095],
    );
    assert_eq!(program_module(&prog, "S", "spec"), Err("stack bounds check failed at instruction 2".to_string()));
}

#[test]
fn location_line_and_file() {
    assert_eq!(loc_line("prog.bpf.c:42"), 42);
    assert_eq!(loc_line("a:b:7"), 7);
    assert_eq!(loc_line("prog.bpf.c:x"), 1);
    assert_eq!(loc_line("prog.bpf.c"), 1);
    assert_eq!(loc_line("f:4294967296"), 1);
    assert_eq!(loc_file("prog.bpf.c:42"), Some("prog.bpf.c".to_string()));
    assert_eq!(loc_file("a:b:7"), Some("a:b".to_string()));
    assert_eq!(loc_file("nocolon"), None);
}

#[test]
fn dwarf_path_takes_first_matching_file() {
    let locs = vec![None, loc("a.c", "/src/a.c", 1), loc("b.c", "/src/b.c", 2), loc("a.c", "/other/a.c", 3)];
    assert_eq!(dwarf_path(&locs, "a.c"), Some("/src/a.c".to_string()));
    assert_eq!(dwarf_path(&locs, "b.c"), Some("/src/b.c".to_string()));
    assert_eq!(dwarf_path(&locs, "c.c"), None);
}

#[test]
fn select_all_or_named_programmes() {
    let progs = vec![program("a", &[0x95]), program("b", &[0x95]), program("c", &[0x95])];
    assert_eq!(select_programs(&progs, &[]), Ok(vec![0, 1, 2]));
    assert_eq!(select_programs(&progs, &["c".to_string(), "a".to_string()]), Ok(vec![2, 0]));
    assert_eq!(
        select_programs(&progs, &["a".to_string(), "x".to_string(), "y".to_string()]),
        Err("section 'x' not found. available: a, b, c".to_string())
    );
}

#[test]
fn find_program_errors() {
    let none: Vec<BpfProgram> = vec![];
    assert_eq!(find_program(&none, None).err(), Some("no programme sections found".to_string()));
    let two = vec![program("a", &[0x95]), program("b", &[0x95])];
    assert_eq!(
        find_program(&two, None).err(),
        Some("multiple programme sections found, use --section to select one: a, b".to_string())
    );
    assert_eq!(find_program(&two, Some("b")).unwrap().section_name, "b");
}

#[test]
fn spec_arguments_pair_sections_with_paths() {
    let args = vec!["xdp:A.fst".to_string(), "tc:B.fst".to_string(), "xdp:C.fst".to_string()];
    let pairs = parse_spec_args(&args).unwrap();
    assert_eq!(spec_for(&pairs, "xdp"), Some(&"C.fst".to_string()));
    assert_eq!(spec_for(&pairs, "tc"), Some(&"B.fst".to_string()));
    assert_eq!(spec_for(&pairs, "kprobe"), None);
    assert_eq!(
        parse_spec_args(&["nocolon".to_string()]),
        Err("invalid --spec format 'nocolon': expected section:path.fst".to_string())
    );
}
