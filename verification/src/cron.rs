//! Scheduled jobs.

pub mod agent_run;
pub mod announce;
pub mod delivery;
pub mod dispatch;
pub mod dispatch_laws;
pub mod event;
pub mod job;
pub mod manual_run;
pub mod manual_steps;
pub mod report_laws;
pub mod retry;
pub mod retry_laws;
pub mod run_laws;
pub mod scheduled_run;
pub mod scheduler;
pub mod shell;
pub mod startup;
pub mod store;
