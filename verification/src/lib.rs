//! Decision logic of an agent runtime: turn handling, cron scheduling, and the
//! durable task control plane, with contracts checked by Verus.

pub mod approval;
pub mod clock;
pub mod control_plane;
pub mod cron;
pub mod digest;
pub mod effect;
pub mod json;
pub mod text;
pub mod text_laws;
pub mod turn;
