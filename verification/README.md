# bpf_verifier

A verifier for eBPF programmes, written in Verus. It reads a compiled BPF
object file, walks each programme's instructions with an abstract register
and stack state (tristate numbers with signed and unsigned bounds), and
reports the instructions at which the kernel's verifier would refuse the
programme. It also turns programmes into F* modules, converts Clang ASTs of C sources, and turns
F*'s output back into readable diagnostics.

Every function under `src/` is verified by Verus against its `requires` and
`ensures`; the calls into outside crates (`object`, `addr2line`/`gimli`,
`ariadne`, `shlex`, `serde_json`) go through small trusted wrappers whose doc
comments say what is claimed of them.

## Layout

- `src/bpf/` — instruction decoding, basic blocks, the helper table. The
  table resolves 22 helper ids.
- `src/kverify/` — the abstract state (`state.rs`), the checker
  (`check.rs`) and its error reports (`error.rs`).
- `src/analysis/` — the stack-bounds and dataflow analyses that feed code
  generation.
- `src/elf/` — ELF, BTF.ext and DWARF reading.
- `src/ast/` — the Clang AST model and its conversion to the F* AST.
- `src/codegen/` — F* module text.
- `src/verify/` — parsing F*'s output, diagnostics and their drawn reports,
  and the F* command line.
- `src/pipeline.rs`, `src/select.rs` — choosing programmes, specs and
  module names.
- `app/` — the command-line tool: argument handling, file and process I/O,
  JSON loading, calling F*.
- `tests/` — tests of the library, run against the compiled crate.

The laws the library keeps (tnum soundness for every operation, widening
and substate soundness, stack write-then-read, error de-duplication, the
checker's termination bound) are public proof functions or `ensures`
clauses next to the functions they speak of.
