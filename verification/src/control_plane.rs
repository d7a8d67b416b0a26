//! The durable task control plane.

pub mod authority;
pub mod recovery_laws;
pub mod task_laws;
pub mod task_recovery;
pub mod task_registry;
pub mod task_store;
