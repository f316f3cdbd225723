//! The worker of a core and the groups that live on it.

pub mod actor;
pub mod appends;
pub mod batches;
pub mod effect_laws;
pub mod effects;
pub mod groups;
pub mod requests;
pub mod wait_laws;
pub mod watchers;
