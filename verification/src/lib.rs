//! Verified core of the stream runtime: record formats, caches, admission
//! rules, group engines and the in-memory replicated log.

pub mod admission;
pub mod cold_config;
pub mod cold_index;
pub mod cold_store;
pub mod cold_worker;
pub mod command;
pub mod duration;
pub mod engine;
pub mod env;
pub mod error;
pub mod ids;
pub mod io_error;
pub mod journal;
pub mod metrics;
pub mod order;
pub mod raft;
pub mod recency;
pub mod refs;
pub mod request;
pub mod stream;
pub mod stress;
pub mod table;
pub mod text;
pub mod wire;
pub mod worker;

pub use crate::admission::RaftUncommittedAdmission;
pub use crate::cold_config::{
    ColdCacheConfig, ColdConfig, ColdStorageBackend, ColdStorageConfig, ColdWorkerConfig,
};
pub use crate::engine::errors::{GroupEngineError, GroupInfraError, GroupLeaderHint};
pub use crate::engine::in_memory::InMemoryGroupEngine;
pub use crate::engine::responses::{GroupAppendBatchResponse, GroupWriteResponse};
pub use crate::engine::wal::WalGroupEngine;
pub use crate::error::{ErrorStatus, RuntimeError};
pub use crate::metrics::{
    GroupEngineMetrics, RuntimeMailboxSnapshot, RuntimeMetrics, RuntimeMetricsSnapshot,
};
pub use crate::raft::log_store::{MemoryRaftLogStore, MetaRaftLogStore, RaftGroupLogStore};
pub use crate::raft::{MetaRaftTypeConfig, UrsulaRaftTypeConfig};
