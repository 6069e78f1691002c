//! Scheduling service library: the schedule model, the in-memory schedule
//! repository, the cron-driven next-run computation and the request handlers'
//! decisions, each with a machine-checked contract.

pub mod schedule;
pub mod cron_schedule;
pub mod handlers;
pub mod rows;
pub mod repo;
pub mod settings;
