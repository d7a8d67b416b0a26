//! Operator approval.

pub mod async_cli;
pub mod line_laws;
