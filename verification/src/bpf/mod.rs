pub mod basic_block;
pub mod helpers;
pub mod instruction;
