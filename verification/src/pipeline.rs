//! The steps between reading a programme and running F* on it: the spec
//! module a spec file names, the module generated for a programme once
//! its stack accesses are known to be in bounds, the programmes a run
//! works on, and where a source location points.

use vstd::prelude::*;

use crate::analysis::stack_bounds::{analyse, sb_run};
use crate::ast::load::{file_name, file_name_of};
use crate::bpf::instruction::{BpfInsn, Opcode};
use crate::codegen::fstar::{generate_fstar, hints_run, module_text};
use crate::elf::parser::{BpfProgram, SourceLoc};
use crate::select::{select_index, selection_of};
use crate::text::{chars_of, dec_nat, push_dec_u64, push_str, str_eq};
use crate::verify::scan::{parse_usize, parse_usize_of, rfind, rfind_in, slice_of, string_of};

verus! {

/// The stem of a path's file name: the name up to its last `.`, unless
/// that `.` is its first character.
pub open spec fn file_stem_of(p: Seq<char>) -> Option<Seq<char>> {
    match file_name_of(p) {
        Some(n) => match rfind(n, seq!['.']) {
            Some(k) => if k > 0 { Some(n.take(k)) } else { Some(n) },
            None => Some(n),
        },
        None => None,
    }
}

/// The spec module and the name of its spec: a spec file gives the module
/// its stem names (`Spec` where it has none); without one, the default
/// spec module.
pub open spec fn spec_module_of(spec_path: Option<Seq<char>>) -> (Seq<char>, Seq<char>) {
    match spec_path {
        Some(p) => (
            match file_stem_of(p) {
                Some(s) => s,
                None => "Spec"@,
            },
            "spec"@,
        ),
        None => ("BPF.DefaultSpec"@, "spec"@),
    }
}

/// The spec module and spec name for a spec file (see `spec_module_of`).
pub fn resolve_spec_module(spec_path: Option<&str>) -> (r: (String, String))
    ensures
        (r.0@, r.1@) == spec_module_of(
            match spec_path {
                Some(p) => Some(p@),
                None => None,
            },
        ),
{
    match spec_path {
        Some(path) => {
            let module = match file_name(path) {
                Some(n) => {
                    let cs = chars_of(n.as_str());
                    let dot = vec!['.'];
                    assert(dot@ =~= seq!['.']);
                    match rfind_in(cs.as_slice(), dot.as_slice()) {
                        Some(k) => if k > 0 {
                            proof {
                                crate::verify::scan::lemma_rfind_upto_bounds(cs@, dot@, cs@.len() - 1);
                            }
                            let stem = slice_of(cs.as_slice(), 0, k);
                            assert(stem@ =~= n@.take(k as int));
                            string_of(stem.as_slice())
                        } else {
                            n
                        },
                        None => n,
                    }
                },
                None => "Spec".to_string(),
            };
            (module, "spec".to_string())
        },
        None => ("BPF.DefaultSpec".to_string(), "spec".to_string()),
    }
}

/// A section name made safe for a module name: each `/` becomes `_`.
pub open spec fn safe_name_of(s: Seq<char>) -> Seq<char> {
    s.map_values(|c: char| if c == '/' { '_' } else { c })
}

/// A section name made safe for a module name (see `safe_name_of`).
pub fn safe_name(section: &str) -> (r: String)
    ensures
        r@ == safe_name_of(section@),
{
    let cs = chars_of(section);
    let mut out: Vec<char> = Vec::new();
    let mut k: usize = 0;
    while k < cs.len()
        invariant
            k <= cs@.len(),
            out@ == safe_name_of(cs@.take(k as int)),
        decreases cs@.len() - k,
    {
        let c = cs[k];
        out.push(if c == '/' { '_' } else { c });
        assert(safe_name_of(cs@.take(k + 1)) =~= safe_name_of(cs@.take(k as int)).push(
            if c == '/' { '_' } else { c },
        ));
        k = k + 1;
    }
    assert(cs@.take(k as int) =~= cs@);
    string_of(out.as_slice())
}

/// Whether the stack-bounds analysis of `insns` holds up to instruction
/// `k` and fails there.
pub open spec fn stack_fault_at(insns: Seq<BpfInsn>, k: int) -> bool {
    0 <= k < insns.len() && sb_run(insns, k).2 && !sb_run(insns, k + 1).2
}

/// The F* module generated for a programme against a spec.
pub open spec fn program_module_of(prog: BpfProgram, spec_module: Seq<char>, spec_name: Seq<char>) -> Seq<char> {
    let insns = prog.instructions@;
    module_text(
        safe_name_of(prog.section_name@),
        insns.map_values(|i: BpfInsn| i.text()),
        spec_module,
        spec_name,
        hints_run(insns, insns.len() as int).2,
        exists|i: int| 0 <= i < insns.len() && (#[trigger] insns[i]).opcode is Call,
    )
}

/// The F* module for a programme against a spec, generated once the
/// stack-bounds analysis passes; else the error names the instruction
/// where it fails.
pub fn program_module(prog: &BpfProgram, spec_module: &str, spec_name: &str) -> (r: Result<String, String>)
    requires
        prog.instructions@.len() <= 0x7FFF_0000,
    ensures
        match r {
            Ok(s) => sb_run(prog.instructions@, prog.instructions@.len() as int).2 && s@ == program_module_of(
                *prog,
                spec_module@,
                spec_name@,
            ),
            Err(e) => !sb_run(prog.instructions@, prog.instructions@.len() as int).2 && exists|k: int|
                stack_fault_at(prog.instructions@, k) && e@ == "stack bounds check failed at instruction "@
                    + dec_nat(k as nat),
        },
{
    let witness = analyse(prog.instructions.as_slice());
    if !witness.passed {
        let pc = match witness.failing_pc {
            Some(pc) => pc,
            None => 0,
        };
        let mut e = "stack bounds check failed at instruction ".to_string();
        push_dec_u64(&mut e, pc as u64);
        assert(stack_fault_at(prog.instructions@, pc as int));
        return Err(e);
    }
    let name = safe_name(prog.section_name.as_str());
    Ok(generate_fstar(name.as_str(), prog.instructions.as_slice(), spec_module, spec_name))
}

/// Whether `k` is where the stack-bounds analysis of `insns` fails: there
/// is one such place at most.
pub proof fn lemma_stack_fault_unique(insns: Seq<BpfInsn>, k: int, j: int)
    requires
        stack_fault_at(insns, k),
        stack_fault_at(insns, j),
    ensures
        k == j,
{
    if k < j {
        crate::analysis::stack_bounds::lemma_run_fails_on(insns, k + 1, j);
    } else if j < k {
        crate::analysis::stack_bounds::lemma_run_fails_on(insns, j + 1, k);
    }
}

/// The `u32` that `parse` reads from `s`: as `usize`'s (see
/// `parse_usize`), where the value fits.
pub open spec fn parse_u32(s: Seq<char>) -> Option<u32> {
    match parse_usize(s) {
        Some(v) => if v <= u32::MAX { Some(v as u32) } else { None },
        None => None,
    }
}

/// The line a `file:line` location names: the number after its last `:`,
/// or 1 where there is none.
pub open spec fn loc_line_of(loc: Seq<char>) -> u32 {
    match rfind(loc, seq![':']) {
        Some(k) => match parse_u32(loc.skip(k + 1)) {
            Some(v) => v,
            None => 1,
        },
        None => 1,
    }
}

/// The file a `file:line` location names: the text before its last `:`.
pub open spec fn loc_file_of(loc: Seq<char>) -> Option<Seq<char>> {
    match rfind(loc, seq![':']) {
        Some(k) => Some(loc.take(k)),
        None => None,
    }
}

/// The line a `file:line` location names (see `loc_line_of`).
pub fn loc_line(loc: &str) -> (r: u32)
    ensures
        r == loc_line_of(loc@),
{
    let cs = chars_of(loc);
    let colon = vec![':'];
    assert(colon@ =~= seq![':']);
    match rfind_in(cs.as_slice(), colon.as_slice()) {
        Some(k) => {
            proof {
                crate::verify::scan::lemma_rfind_upto_bounds(cs@, colon@, cs@.len() - 1);
            }
            assert(crate::verify::scan::occurs_at(cs@, colon@, k as int));
            let n = cs.len();
            assert(k + 1 <= n);
            let rest = slice_of(cs.as_slice(), k + 1, n);
            assert(rest@ =~= loc@.skip(k + 1));
            match parse_usize_of(rest.as_slice()) {
                Some(v) => if v <= 0xFFFF_FFFF {
                    v as u32
                } else {
                    1
                },
                None => 1,
            }
        },
        None => 1,
    }
}

/// The file a `file:line` location names (see `loc_file_of`).
pub fn loc_file(loc: &str) -> (r: Option<String>)
    ensures
        match r {
            Some(f) => loc_file_of(loc@) == Some(f@),
            None => loc_file_of(loc@) is None,
        },
{
    let cs = chars_of(loc);
    let colon = vec![':'];
    assert(colon@ =~= seq![':']);
    match rfind_in(cs.as_slice(), colon.as_slice()) {
        Some(k) => {
            proof {
                crate::verify::scan::lemma_rfind_upto_bounds(cs@, colon@, cs@.len() - 1);
            }
            let f = slice_of(cs.as_slice(), 0, k);
            assert(f@ =~= loc@.take(k as int));
            Some(string_of(f.as_slice()))
        },
        None => None,
    }
}

/// The path of the first of the locations, from `i` on, whose file is
/// `file`.
pub open spec fn dwarf_path_from(locs: Seq<Option<SourceLoc>>, file: Seq<char>, i: int) -> Option<Seq<char>>
    decreases locs.len() - i,
{
    if i < 0 || i >= locs.len() {
        None
    } else {
        match locs[i] {
            Some(l) => if l.file@ == file { Some(l.path@) } else { dwarf_path_from(locs, file, i + 1) },
            None => dwarf_path_from(locs, file, i + 1),
        }
    }
}

/// The full path the DWARF locations give a source file: that of the
/// first location whose file is `file`.
pub fn dwarf_path(locs: &[Option<SourceLoc>], file: &str) -> (r: Option<String>)
    ensures
        match r {
            Some(p) => dwarf_path_from(locs@, file@, 0) == Some(p@),
            None => dwarf_path_from(locs@, file@, 0) is None,
        },
{
    let mut i: usize = 0;
    while i < locs.len()
        invariant
            i <= locs@.len(),
            dwarf_path_from(locs@, file@, 0) == dwarf_path_from(locs@, file@, i as int),
        decreases locs@.len() - i,
    {
        match &locs[i] {
            Some(l) => {
                if str_eq(l.file.as_str(), file) {
                    return Some(l.path.clone());
                }
            },
            None => {},
        }
        i = i + 1;
    }
    None
}

} // verus!
