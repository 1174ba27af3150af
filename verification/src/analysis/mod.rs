pub mod dataflow;
pub mod stack_bounds;
