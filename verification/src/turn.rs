//! One turn of an agent: approvals, tool rounds, repair of empty answers,
//! cancellation, and what remains of failures.

pub mod approval_gate;
pub mod approval_laws;
pub mod batch_failures;
pub mod collect_laws;
pub mod completion_repair;
pub mod describe;
pub mod error;
pub mod error_laws;
pub mod history_append;
pub mod history_laws;
pub mod message;
pub mod owned_cancellation;
pub mod post_exec;
pub mod repair_laws;
pub mod results_collect;
pub mod round_laws;
pub mod settlement_laws;
pub mod sop_settlement;
pub mod stop_laws;
pub mod tool;
