//! What is stored of scheduled jobs and their runs.

pub mod evidence_laws;
pub mod ledger;
pub mod manual;
pub mod manual_end_laws;
pub mod manual_laws;
pub mod occurrences;
pub mod page;
pub mod page_laws;
pub mod reading_laws;
pub mod reconciliation;
pub mod reconciliation_laws;
pub mod snapshot;
pub mod token;
