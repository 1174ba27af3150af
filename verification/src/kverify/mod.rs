pub mod error;
pub mod state;
pub mod check;

pub use check::{check, CheckResult};
pub use error::{format_errors, VerifyError};
