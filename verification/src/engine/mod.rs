//! The group engine: what a replicated group does with its writes and reads.

pub mod access;
pub mod admission_laws;
pub mod answer_laws;
pub mod batch;
pub mod checks;
pub mod defaults;
pub mod dispatch;
pub mod errors;
pub mod in_memory;
pub mod laws;
pub mod log_laws;
pub mod plan_read;
pub mod read_laws;
pub mod reads;
pub mod responses;
pub mod snapshot;
pub mod state;
pub mod wal;
pub mod write_batch;
