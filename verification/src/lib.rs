//! Safety and correctness checking for BPF programmes: instruction
//! decoding, kernel-style abstract interpretation, witness generation
//! for the F* side, and parsing of the prover's diagnostics.

pub mod analysis;
pub mod ast;
pub mod bpf;
pub mod codegen;
pub mod elf;
pub mod kverify;
pub mod select;
pub mod text;
pub mod verify;
pub mod pipeline;
