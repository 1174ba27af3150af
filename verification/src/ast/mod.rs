//! The C-source side: Clang's JSON syntax tree and its conversion into
//! the F* AST that the AST-level verifier emits.

pub mod clang_ast;
pub mod convert;
pub mod fstar_ast;
pub mod load;
