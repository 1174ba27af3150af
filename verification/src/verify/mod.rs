pub mod diagnostic;
pub mod scan;
pub mod runner;
pub mod report;
