//! Metrics of the runtime: counters per core, per group and for all.
//!
//! Every counter is named once here; a snapshot holds the counters and, for each
//! row of them, their sum or their largest.

pub mod counters;
pub mod errors;

use vstd::prelude::*;
use crate::admission;
use crate::ids::{CoreId, RaftGroupId, ShardPlacement};
use crate::metrics::counters::{max_or_zero, sum_of, CounterRow, PaddedAtomicU64};

verus! {

/// How many batches of appends a group takes at once.
pub const GROUP_ACTOR_MAX_WRITE_BATCH: usize = 64;

/// How many chunks of a group are flushed at once.
pub const COLD_FLUSH_GROUP_BATCH_MAX_CHUNKS: usize = 64;

/// The counters.
#[derive(Debug)]
pub struct RuntimeMetricsInner {
    pub per_core_appends: CounterRow,
    pub per_group_appends: CounterRow,
    pub per_core_applied_mutations: CounterRow,
    pub per_group_applied_mutations: CounterRow,
    pub per_core_mutation_apply_ns: CounterRow,
    pub per_group_mutation_apply_ns: CounterRow,
    pub per_core_group_lock_wait_ns: CounterRow,
    pub per_group_group_lock_wait_ns: CounterRow,
    pub per_core_group_engine_exec_ns: CounterRow,
    pub per_group_group_engine_exec_ns: CounterRow,
    pub per_group_group_mailbox_depth: CounterRow,
    pub per_group_group_mailbox_max_depth: CounterRow,
    pub per_group_group_mailbox_full_events: CounterRow,
    pub per_core_raft_write_many_batches: CounterRow,
    pub per_group_raft_write_many_batches: CounterRow,
    pub per_core_raft_write_many_commands: CounterRow,
    pub per_group_raft_write_many_commands: CounterRow,
    pub per_core_raft_write_many_logical_commands: CounterRow,
    pub per_group_raft_write_many_logical_commands: CounterRow,
    pub per_core_raft_write_many_responses: CounterRow,
    pub per_group_raft_write_many_responses: CounterRow,
    pub per_core_raft_write_many_submit_ns: CounterRow,
    pub per_group_raft_write_many_submit_ns: CounterRow,
    pub per_core_raft_write_many_response_ns: CounterRow,
    pub per_group_raft_write_many_response_ns: CounterRow,
    pub per_core_raft_apply_entries: CounterRow,
    pub per_group_raft_apply_entries: CounterRow,
    pub per_core_raft_apply_ns: CounterRow,
    pub per_group_raft_apply_ns: CounterRow,
    pub per_group_raft_snapshot_builds: CounterRow,
    pub per_group_raft_snapshot_build_ns: CounterRow,
    pub per_group_raft_snapshot_body_bytes: CounterRow,
    pub per_group_raft_snapshot_pointer_bytes: CounterRow,
    pub per_group_raft_snapshot_streams: CounterRow,
    pub per_group_raft_snapshot_external_uploads: CounterRow,
    pub per_group_raft_snapshot_inline_fallbacks: CounterRow,
    pub per_core_live_read_waiters: CounterRow,
    pub per_core_live_read_backpressure_events: CounterRow,
    pub per_core_routed_requests: CounterRow,
    pub per_core_mailbox_send_wait_ns: CounterRow,
    pub per_core_mailbox_full_events: CounterRow,
    pub per_core_wal_batches: CounterRow,
    pub per_group_wal_batches: CounterRow,
    pub per_core_wal_records: CounterRow,
    pub per_group_wal_records: CounterRow,
    pub per_core_wal_write_ns: CounterRow,
    pub per_group_wal_write_ns: CounterRow,
    pub per_core_wal_sync_ns: CounterRow,
    pub per_group_wal_sync_ns: CounterRow,
    pub cold_flush_uploads: PaddedAtomicU64,
    pub cold_flush_upload_bytes: PaddedAtomicU64,
    pub cold_flush_upload_ns: PaddedAtomicU64,
    pub cold_flush_publishes: PaddedAtomicU64,
    pub cold_flush_publish_bytes: PaddedAtomicU64,
    pub cold_flush_publish_ns: PaddedAtomicU64,
    pub cold_orphan_cleanup_attempts: PaddedAtomicU64,
    pub cold_orphan_cleanup_errors: PaddedAtomicU64,
    pub cold_orphan_bytes: PaddedAtomicU64,
    pub cold_gc_reclaimed: PaddedAtomicU64,
    pub cold_gc_errors: PaddedAtomicU64,
    pub cold_flush_write_errors: PaddedAtomicU64,
    pub per_group_cold_hot_bytes: CounterRow,
    pub per_group_cold_hot_bytes_max: CounterRow,
    pub cold_hot_stream_bytes_max: PaddedAtomicU64,
    pub per_core_cold_backpressure_events: CounterRow,
    pub per_group_cold_backpressure_events: CounterRow,
    pub cold_backpressure_bytes: PaddedAtomicU64,
}

/// The counters as they stand at one moment.
#[derive(Debug, Clone, PartialEq, Eq)]
pub struct RuntimeMetricsSnapshot {
    pub accepted_appends: u64,
    pub per_core_appends: Vec<u64>,
    pub per_group_appends: Vec<u64>,
    pub applied_mutations: u64,
    pub per_core_applied_mutations: Vec<u64>,
    pub per_group_applied_mutations: Vec<u64>,
    pub mutation_apply_ns: u64,
    pub per_core_mutation_apply_ns: Vec<u64>,
    pub per_group_mutation_apply_ns: Vec<u64>,
    pub group_lock_wait_ns: u64,
    pub per_core_group_lock_wait_ns: Vec<u64>,
    pub per_group_group_lock_wait_ns: Vec<u64>,
    pub group_engine_exec_ns: u64,
    pub per_core_group_engine_exec_ns: Vec<u64>,
    pub per_group_group_engine_exec_ns: Vec<u64>,
    pub group_mailbox_depth: u64,
    pub per_group_group_mailbox_depth: Vec<u64>,
    pub group_mailbox_max_depth: u64,
    pub per_group_group_mailbox_max_depth: Vec<u64>,
    pub group_mailbox_full_events: u64,
    pub per_group_group_mailbox_full_events: Vec<u64>,
    pub raft_write_many_batches: u64,
    pub per_core_raft_write_many_batches: Vec<u64>,
    pub per_group_raft_write_many_batches: Vec<u64>,
    pub raft_write_many_commands: u64,
    pub per_core_raft_write_many_commands: Vec<u64>,
    pub per_group_raft_write_many_commands: Vec<u64>,
    pub raft_write_many_logical_commands: u64,
    pub per_core_raft_write_many_logical_commands: Vec<u64>,
    pub per_group_raft_write_many_logical_commands: Vec<u64>,
    pub raft_write_many_responses: u64,
    pub per_core_raft_write_many_responses: Vec<u64>,
    pub per_group_raft_write_many_responses: Vec<u64>,
    pub raft_write_many_submit_ns: u64,
    pub per_core_raft_write_many_submit_ns: Vec<u64>,
    pub per_group_raft_write_many_submit_ns: Vec<u64>,
    pub raft_write_many_response_ns: u64,
    pub per_core_raft_write_many_response_ns: Vec<u64>,
    pub per_group_raft_write_many_response_ns: Vec<u64>,
    pub raft_apply_entries: u64,
    pub per_core_raft_apply_entries: Vec<u64>,
    pub per_group_raft_apply_entries: Vec<u64>,
    pub raft_apply_ns: u64,
    pub per_core_raft_apply_ns: Vec<u64>,
    pub per_group_raft_apply_ns: Vec<u64>,
    pub raft_snapshot_builds: u64,
    pub per_group_raft_snapshot_builds: Vec<u64>,
    pub raft_snapshot_build_ns: u64,
    pub per_group_raft_snapshot_build_ns: Vec<u64>,
    pub raft_snapshot_body_bytes: u64,
    pub raft_snapshot_body_bytes_max: u64,
    pub per_group_raft_snapshot_body_bytes: Vec<u64>,
    pub raft_snapshot_pointer_bytes: u64,
    pub raft_snapshot_pointer_bytes_max: u64,
    pub per_group_raft_snapshot_pointer_bytes: Vec<u64>,
    pub raft_snapshot_streams: u64,
    pub raft_snapshot_streams_max: u64,
    pub per_group_raft_snapshot_streams: Vec<u64>,
    pub raft_snapshot_external_uploads: u64,
    pub per_group_raft_snapshot_external_uploads: Vec<u64>,
    pub raft_snapshot_inline_fallbacks: u64,
    pub per_group_raft_snapshot_inline_fallbacks: Vec<u64>,
    pub live_read_waiters: u64,
    pub per_core_live_read_waiters: Vec<u64>,
    pub live_read_backpressure_events: u64,
    pub per_core_live_read_backpressure_events: Vec<u64>,
    pub routed_requests: u64,
    pub per_core_routed_requests: Vec<u64>,
    pub mailbox_send_wait_ns: u64,
    pub per_core_mailbox_send_wait_ns: Vec<u64>,
    pub mailbox_full_events: u64,
    pub per_core_mailbox_full_events: Vec<u64>,
    pub wal_batches: u64,
    pub per_core_wal_batches: Vec<u64>,
    pub per_group_wal_batches: Vec<u64>,
    pub wal_records: u64,
    pub per_core_wal_records: Vec<u64>,
    pub per_group_wal_records: Vec<u64>,
    pub wal_write_ns: u64,
    pub per_core_wal_write_ns: Vec<u64>,
    pub per_group_wal_write_ns: Vec<u64>,
    pub wal_sync_ns: u64,
    pub per_core_wal_sync_ns: Vec<u64>,
    pub per_group_wal_sync_ns: Vec<u64>,
    pub cold_flush_uploads: u64,
    pub cold_flush_upload_bytes: u64,
    pub cold_flush_upload_ns: u64,
    pub cold_flush_publishes: u64,
    pub cold_flush_publish_bytes: u64,
    pub cold_flush_publish_ns: u64,
    pub cold_orphan_cleanup_attempts: u64,
    pub cold_orphan_cleanup_errors: u64,
    pub cold_orphan_bytes: u64,
    pub cold_gc_reclaimed: u64,
    pub cold_gc_errors: u64,
    pub cold_flush_write_errors: u64,
    pub cold_hot_bytes: u64,
    pub per_group_cold_hot_bytes: Vec<u64>,
    pub cold_hot_group_bytes_max: u64,
    pub per_group_cold_hot_bytes_max: Vec<u64>,
    pub cold_hot_stream_bytes_max: u64,
    pub cold_backpressure_events: u64,
    pub per_core_cold_backpressure_events: Vec<u64>,
    pub per_group_cold_backpressure_events: Vec<u64>,
    pub cold_backpressure_bytes: u64,
}

/// The metrics, as others see them.
#[derive(Debug)]
pub struct RuntimeMetrics {
    pub inner: RuntimeMetricsInner,
}

/// How full the mailboxes of the cores are.
#[derive(Debug, Clone, PartialEq, Eq)]
pub struct RuntimeMailboxSnapshot {
    pub depths: Vec<usize>,
    pub capacities: Vec<usize>,
}

/// What is known of several writes that went to replication together.
#[derive(Debug, Clone, Copy, PartialEq, Eq, Structural)]
pub struct RaftWriteManySample {
    pub command_count: u64,
    pub logical_command_count: u64,
    pub response_count: u64,
    pub submit_ns: u64,
    pub response_ns: u64,
}

/// What is known of a snapshot that was built.
#[derive(Debug, Clone, Copy, PartialEq, Eq, Structural)]
pub struct RaftSnapshotBuildSample {
    pub streams: u64,
    pub body_bytes: u64,
    pub pointer_bytes: u64,
    pub build_ns: u64,
    pub external_upload: bool,
    pub inline_fallback: bool,
}

impl RuntimeMetricsInner {
    /// How many cores are counted.
    pub open spec fn core_count(&self) -> nat {
        self.per_core_appends@.len()
    }

    /// How many groups are counted.
    pub open spec fn group_count(&self) -> nat {
        self.per_group_appends@.len()
    }

    /// Every row per core has a counter for each core, every row per group one for
    /// each group.
    pub open spec fn wf(&self) -> bool {
        &&& self.per_core_appends@.len() == self.core_count()
        &&& self.per_core_applied_mutations@.len() == self.core_count()
        &&& self.per_core_mutation_apply_ns@.len() == self.core_count()
        &&& self.per_core_group_lock_wait_ns@.len() == self.core_count()
        &&& self.per_core_group_engine_exec_ns@.len() == self.core_count()
        &&& self.per_core_raft_write_many_batches@.len() == self.core_count()
        &&& self.per_core_raft_write_many_commands@.len() == self.core_count()
        &&& self.per_core_raft_write_many_logical_commands@.len() == self.core_count()
        &&& self.per_core_raft_write_many_responses@.len() == self.core_count()
        &&& self.per_core_raft_write_many_submit_ns@.len() == self.core_count()
        &&& self.per_core_raft_write_many_response_ns@.len() == self.core_count()
        &&& self.per_core_raft_apply_entries@.len() == self.core_count()
        &&& self.per_core_raft_apply_ns@.len() == self.core_count()
        &&& self.per_core_live_read_waiters@.len() == self.core_count()
        &&& self.per_core_live_read_backpressure_events@.len() == self.core_count()
        &&& self.per_core_routed_requests@.len() == self.core_count()
        &&& self.per_core_mailbox_send_wait_ns@.len() == self.core_count()
        &&& self.per_core_mailbox_full_events@.len() == self.core_count()
        &&& self.per_core_wal_batches@.len() == self.core_count()
        &&& self.per_core_wal_records@.len() == self.core_count()
        &&& self.per_core_wal_write_ns@.len() == self.core_count()
        &&& self.per_core_wal_sync_ns@.len() == self.core_count()
        &&& self.per_core_cold_backpressure_events@.len() == self.core_count()
        &&& self.per_group_appends@.len() == self.group_count()
        &&& self.per_group_applied_mutations@.len() == self.group_count()
        &&& self.per_group_mutation_apply_ns@.len() == self.group_count()
        &&& self.per_group_group_lock_wait_ns@.len() == self.group_count()
        &&& self.per_group_group_engine_exec_ns@.len() == self.group_count()
        &&& self.per_group_group_mailbox_depth@.len() == self.group_count()
        &&& self.per_group_group_mailbox_max_depth@.len() == self.group_count()
        &&& self.per_group_group_mailbox_full_events@.len() == self.group_count()
        &&& self.per_group_raft_write_many_batches@.len() == self.group_count()
        &&& self.per_group_raft_write_many_commands@.len() == self.group_count()
        &&& self.per_group_raft_write_many_logical_commands@.len() == self.group_count()
        &&& self.per_group_raft_write_many_responses@.len() == self.group_count()
        &&& self.per_group_raft_write_many_submit_ns@.len() == self.group_count()
        &&& self.per_group_raft_write_many_response_ns@.len() == self.group_count()
        &&& self.per_group_raft_apply_entries@.len() == self.group_count()
        &&& self.per_group_raft_apply_ns@.len() == self.group_count()
        &&& self.per_group_raft_snapshot_builds@.len() == self.group_count()
        &&& self.per_group_raft_snapshot_build_ns@.len() == self.group_count()
        &&& self.per_group_raft_snapshot_body_bytes@.len() == self.group_count()
        &&& self.per_group_raft_snapshot_pointer_bytes@.len() == self.group_count()
        &&& self.per_group_raft_snapshot_streams@.len() == self.group_count()
        &&& self.per_group_raft_snapshot_external_uploads@.len() == self.group_count()
        &&& self.per_group_raft_snapshot_inline_fallbacks@.len() == self.group_count()
        &&& self.per_group_wal_batches@.len() == self.group_count()
        &&& self.per_group_wal_records@.len() == self.group_count()
        &&& self.per_group_wal_write_ns@.len() == self.group_count()
        &&& self.per_group_wal_sync_ns@.len() == self.group_count()
        &&& self.per_group_cold_hot_bytes@.len() == self.group_count()
        &&& self.per_group_cold_hot_bytes_max@.len() == self.group_count()
        &&& self.per_group_cold_backpressure_events@.len() == self.group_count()
    }

    /// Whether every row that is summed has a sum that can be counted.
    pub open spec fn can_be_summed(&self) -> bool {
        &&& counters::total(self.per_core_appends@) <= u64::MAX
        &&& counters::total(self.per_core_applied_mutations@) <= u64::MAX
        &&& counters::total(self.per_core_mutation_apply_ns@) <= u64::MAX
        &&& counters::total(self.per_core_group_lock_wait_ns@) <= u64::MAX
        &&& counters::total(self.per_core_group_engine_exec_ns@) <= u64::MAX
        &&& counters::total(self.per_group_group_mailbox_depth@) <= u64::MAX
        &&& counters::total(self.per_group_group_mailbox_full_events@) <= u64::MAX
        &&& counters::total(self.per_core_raft_write_many_batches@) <= u64::MAX
        &&& counters::total(self.per_core_raft_write_many_commands@) <= u64::MAX
        &&& counters::total(self.per_core_raft_write_many_logical_commands@) <= u64::MAX
        &&& counters::total(self.per_core_raft_write_many_responses@) <= u64::MAX
        &&& counters::total(self.per_core_raft_write_many_submit_ns@) <= u64::MAX
        &&& counters::total(self.per_core_raft_write_many_response_ns@) <= u64::MAX
        &&& counters::total(self.per_core_raft_apply_entries@) <= u64::MAX
        &&& counters::total(self.per_core_raft_apply_ns@) <= u64::MAX
        &&& counters::total(self.per_group_raft_snapshot_builds@) <= u64::MAX
        &&& counters::total(self.per_group_raft_snapshot_build_ns@) <= u64::MAX
        &&& counters::total(self.per_group_raft_snapshot_body_bytes@) <= u64::MAX
        &&& counters::total(self.per_group_raft_snapshot_pointer_bytes@) <= u64::MAX
        &&& counters::total(self.per_group_raft_snapshot_streams@) <= u64::MAX
        &&& counters::total(self.per_group_raft_snapshot_external_uploads@) <= u64::MAX
        &&& counters::total(self.per_group_raft_snapshot_inline_fallbacks@) <= u64::MAX
        &&& counters::total(self.per_core_live_read_waiters@) <= u64::MAX
        &&& counters::total(self.per_core_live_read_backpressure_events@) <= u64::MAX
        &&& counters::total(self.per_core_routed_requests@) <= u64::MAX
        &&& counters::total(self.per_core_mailbox_send_wait_ns@) <= u64::MAX
        &&& counters::total(self.per_core_mailbox_full_events@) <= u64::MAX
        &&& counters::total(self.per_core_wal_batches@) <= u64::MAX
        &&& counters::total(self.per_core_wal_records@) <= u64::MAX
        &&& counters::total(self.per_core_wal_write_ns@) <= u64::MAX
        &&& counters::total(self.per_core_wal_sync_ns@) <= u64::MAX
        &&& counters::total(self.per_group_cold_hot_bytes@) <= u64::MAX
        &&& counters::total(self.per_core_cold_backpressure_events@) <= u64::MAX
    }

    pub fn new(core_count: usize, raft_group_count: usize) -> (r: Self)
        ensures
            r.wf(),
            r.core_count() == core_count,
            r.group_count() == raft_group_count,
            r.per_core_appends@ == counters::zeros(core_count as nat),
            r.per_group_appends@ == counters::zeros(raft_group_count as nat),
            r.per_core_applied_mutations@ == counters::zeros(core_count as nat),
            r.per_group_applied_mutations@ == counters::zeros(raft_group_count as nat),
            r.per_core_mutation_apply_ns@ == counters::zeros(core_count as nat),
            r.per_group_mutation_apply_ns@ == counters::zeros(raft_group_count as nat),
            r.per_core_group_lock_wait_ns@ == counters::zeros(core_count as nat),
            r.per_group_group_lock_wait_ns@ == counters::zeros(raft_group_count as nat),
            r.per_core_group_engine_exec_ns@ == counters::zeros(core_count as nat),
            r.per_group_group_engine_exec_ns@ == counters::zeros(raft_group_count as nat),
            r.per_group_group_mailbox_depth@ == counters::zeros(raft_group_count as nat),
            r.per_group_group_mailbox_max_depth@ == counters::zeros(raft_group_count as nat),
            r.per_group_group_mailbox_full_events@ == counters::zeros(raft_group_count as nat),
            r.per_core_raft_write_many_batches@ == counters::zeros(core_count as nat),
            r.per_group_raft_write_many_batches@ == counters::zeros(raft_group_count as nat),
            r.per_core_raft_write_many_commands@ == counters::zeros(core_count as nat),
            r.per_group_raft_write_many_commands@ == counters::zeros(raft_group_count as nat),
            r.per_core_raft_write_many_logical_commands@ == counters::zeros(core_count as nat),
            r.per_group_raft_write_many_logical_commands@ == counters::zeros(raft_group_count as nat),
            r.per_core_raft_write_many_responses@ == counters::zeros(core_count as nat),
            r.per_group_raft_write_many_responses@ == counters::zeros(raft_group_count as nat),
            r.per_core_raft_write_many_submit_ns@ == counters::zeros(core_count as nat),
            r.per_group_raft_write_many_submit_ns@ == counters::zeros(raft_group_count as nat),
            r.per_core_raft_write_many_response_ns@ == counters::zeros(core_count as nat),
            r.per_group_raft_write_many_response_ns@ == counters::zeros(raft_group_count as nat),
            r.per_core_raft_apply_entries@ == counters::zeros(core_count as nat),
            r.per_group_raft_apply_entries@ == counters::zeros(raft_group_count as nat),
            r.per_core_raft_apply_ns@ == counters::zeros(core_count as nat),
            r.per_group_raft_apply_ns@ == counters::zeros(raft_group_count as nat),
            r.per_group_raft_snapshot_builds@ == counters::zeros(raft_group_count as nat),
            r.per_group_raft_snapshot_build_ns@ == counters::zeros(raft_group_count as nat),
            r.per_group_raft_snapshot_body_bytes@ == counters::zeros(raft_group_count as nat),
            r.per_group_raft_snapshot_pointer_bytes@ == counters::zeros(raft_group_count as nat),
            r.per_group_raft_snapshot_streams@ == counters::zeros(raft_group_count as nat),
            r.per_group_raft_snapshot_external_uploads@ == counters::zeros(raft_group_count as nat),
            r.per_group_raft_snapshot_inline_fallbacks@ == counters::zeros(raft_group_count as nat),
            r.per_core_live_read_waiters@ == counters::zeros(core_count as nat),
            r.per_core_live_read_backpressure_events@ == counters::zeros(core_count as nat),
            r.per_core_routed_requests@ == counters::zeros(core_count as nat),
            r.per_core_mailbox_send_wait_ns@ == counters::zeros(core_count as nat),
            r.per_core_mailbox_full_events@ == counters::zeros(core_count as nat),
            r.per_core_wal_batches@ == counters::zeros(core_count as nat),
            r.per_group_wal_batches@ == counters::zeros(raft_group_count as nat),
            r.per_core_wal_records@ == counters::zeros(core_count as nat),
            r.per_group_wal_records@ == counters::zeros(raft_group_count as nat),
            r.per_core_wal_write_ns@ == counters::zeros(core_count as nat),
            r.per_group_wal_write_ns@ == counters::zeros(raft_group_count as nat),
            r.per_core_wal_sync_ns@ == counters::zeros(core_count as nat),
            r.per_group_wal_sync_ns@ == counters::zeros(raft_group_count as nat),
            r.cold_flush_uploads@ == 0,
            r.cold_flush_upload_bytes@ == 0,
            r.cold_flush_upload_ns@ == 0,
            r.cold_flush_publishes@ == 0,
            r.cold_flush_publish_bytes@ == 0,
            r.cold_flush_publish_ns@ == 0,
            r.cold_orphan_cleanup_attempts@ == 0,
            r.cold_orphan_cleanup_errors@ == 0,
            r.cold_orphan_bytes@ == 0,
            r.cold_gc_reclaimed@ == 0,
            r.cold_gc_errors@ == 0,
            r.cold_flush_write_errors@ == 0,
            r.per_group_cold_hot_bytes@ == counters::zeros(raft_group_count as nat),
            r.per_group_cold_hot_bytes_max@ == counters::zeros(raft_group_count as nat),
            r.cold_hot_stream_bytes_max@ == 0,
            r.per_core_cold_backpressure_events@ == counters::zeros(core_count as nat),
            r.per_group_cold_backpressure_events@ == counters::zeros(raft_group_count as nat),
            r.cold_backpressure_bytes@ == 0,
    {
        RuntimeMetricsInner {
            per_core_appends: CounterRow::zeroed(core_count),
            per_group_appends: CounterRow::zeroed(raft_group_count),
            per_core_applied_mutations: CounterRow::zeroed(core_count),
            per_group_applied_mutations: CounterRow::zeroed(raft_group_count),
            per_core_mutation_apply_ns: CounterRow::zeroed(core_count),
            per_group_mutation_apply_ns: CounterRow::zeroed(raft_group_count),
            per_core_group_lock_wait_ns: CounterRow::zeroed(core_count),
            per_group_group_lock_wait_ns: CounterRow::zeroed(raft_group_count),
            per_core_group_engine_exec_ns: CounterRow::zeroed(core_count),
            per_group_group_engine_exec_ns: CounterRow::zeroed(raft_group_count),
            per_group_group_mailbox_depth: CounterRow::zeroed(raft_group_count),
            per_group_group_mailbox_max_depth: CounterRow::zeroed(raft_group_count),
            per_group_group_mailbox_full_events: CounterRow::zeroed(raft_group_count),
            per_core_raft_write_many_batches: CounterRow::zeroed(core_count),
            per_group_raft_write_many_batches: CounterRow::zeroed(raft_group_count),
            per_core_raft_write_many_commands: CounterRow::zeroed(core_count),
            per_group_raft_write_many_commands: CounterRow::zeroed(raft_group_count),
            per_core_raft_write_many_logical_commands: CounterRow::zeroed(core_count),
            per_group_raft_write_many_logical_commands: CounterRow::zeroed(raft_group_count),
            per_core_raft_write_many_responses: CounterRow::zeroed(core_count),
            per_group_raft_write_many_responses: CounterRow::zeroed(raft_group_count),
            per_core_raft_write_many_submit_ns: CounterRow::zeroed(core_count),
            per_group_raft_write_many_submit_ns: CounterRow::zeroed(raft_group_count),
            per_core_raft_write_many_response_ns: CounterRow::zeroed(core_count),
            per_group_raft_write_many_response_ns: CounterRow::zeroed(raft_group_count),
            per_core_raft_apply_entries: CounterRow::zeroed(core_count),
            per_group_raft_apply_entries: CounterRow::zeroed(raft_group_count),
            per_core_raft_apply_ns: CounterRow::zeroed(core_count),
            per_group_raft_apply_ns: CounterRow::zeroed(raft_group_count),
            per_group_raft_snapshot_builds: CounterRow::zeroed(raft_group_count),
            per_group_raft_snapshot_build_ns: CounterRow::zeroed(raft_group_count),
            per_group_raft_snapshot_body_bytes: CounterRow::zeroed(raft_group_count),
            per_group_raft_snapshot_pointer_bytes: CounterRow::zeroed(raft_group_count),
            per_group_raft_snapshot_streams: CounterRow::zeroed(raft_group_count),
            per_group_raft_snapshot_external_uploads: CounterRow::zeroed(raft_group_count),
            per_group_raft_snapshot_inline_fallbacks: CounterRow::zeroed(raft_group_count),
            per_core_live_read_waiters: CounterRow::zeroed(core_count),
            per_core_live_read_backpressure_events: CounterRow::zeroed(core_count),
            per_core_routed_requests: CounterRow::zeroed(core_count),
            per_core_mailbox_send_wait_ns: CounterRow::zeroed(core_count),
            per_core_mailbox_full_events: CounterRow::zeroed(core_count),
            per_core_wal_batches: CounterRow::zeroed(core_count),
            per_group_wal_batches: CounterRow::zeroed(raft_group_count),
            per_core_wal_records: CounterRow::zeroed(core_count),
            per_group_wal_records: CounterRow::zeroed(raft_group_count),
            per_core_wal_write_ns: CounterRow::zeroed(core_count),
            per_group_wal_write_ns: CounterRow::zeroed(raft_group_count),
            per_core_wal_sync_ns: CounterRow::zeroed(core_count),
            per_group_wal_sync_ns: CounterRow::zeroed(raft_group_count),
            cold_flush_uploads: PaddedAtomicU64::new(0),
            cold_flush_upload_bytes: PaddedAtomicU64::new(0),
            cold_flush_upload_ns: PaddedAtomicU64::new(0),
            cold_flush_publishes: PaddedAtomicU64::new(0),
            cold_flush_publish_bytes: PaddedAtomicU64::new(0),
            cold_flush_publish_ns: PaddedAtomicU64::new(0),
            cold_orphan_cleanup_attempts: PaddedAtomicU64::new(0),
            cold_orphan_cleanup_errors: PaddedAtomicU64::new(0),
            cold_orphan_bytes: PaddedAtomicU64::new(0),
            cold_gc_reclaimed: PaddedAtomicU64::new(0),
            cold_gc_errors: PaddedAtomicU64::new(0),
            cold_flush_write_errors: PaddedAtomicU64::new(0),
            per_group_cold_hot_bytes: CounterRow::zeroed(raft_group_count),
            per_group_cold_hot_bytes_max: CounterRow::zeroed(raft_group_count),
            cold_hot_stream_bytes_max: PaddedAtomicU64::new(0),
            per_core_cold_backpressure_events: CounterRow::zeroed(core_count),
            per_group_cold_backpressure_events: CounterRow::zeroed(raft_group_count),
            cold_backpressure_bytes: PaddedAtomicU64::new(0),
        }
    }

    /// Counts a request that was sent to a core.
    pub fn record_routed_request(&mut self, core_id: CoreId, mailbox_send_wait_ns: u64)
        requires
            old(self).wf(),
            core_id.0 < old(self).core_count(),
        ensures
            final(self).wf(),
            final(self).per_core_routed_requests@ == old(self).per_core_routed_requests@.update(
                core_id.0 as int,
                admission::wrapping_sum(old(self).per_core_routed_requests@[core_id.0 as int], 1),
            ),
            final(self).per_core_mailbox_send_wait_ns@ == old(self).per_core_mailbox_send_wait_ns@.update(
                core_id.0 as int,
                admission::wrapping_sum(old(self).per_core_mailbox_send_wait_ns@[core_id.0 as int], mailbox_send_wait_ns),
            ),
            *final(self) == (RuntimeMetricsInner {
                per_core_routed_requests: final(self).per_core_routed_requests,
                per_core_mailbox_send_wait_ns: final(self).per_core_mailbox_send_wait_ns,
                ..*old(self)
            }),
    {
        let core_index: usize = core_id.0 as usize;
        self.per_core_routed_requests.fetch_add_relaxed(core_index, 1);
        self.per_core_mailbox_send_wait_ns.fetch_add_relaxed(core_index, mailbox_send_wait_ns);
    }

    /// Counts a request that found its core's mailbox full.
    pub fn record_mailbox_full(&mut self, core_id: CoreId)
        requires
            old(self).wf(),
            core_id.0 < old(self).core_count(),
        ensures
            final(self).wf(),
            final(self).per_core_mailbox_full_events@ == old(self).per_core_mailbox_full_events@.update(
                core_id.0 as int,
                admission::wrapping_sum(old(self).per_core_mailbox_full_events@[core_id.0 as int], 1),
            ),
            *final(self) == (RuntimeMetricsInner {
                per_core_mailbox_full_events: final(self).per_core_mailbox_full_events,
                ..*old(self)
            }),
    {
        let core_index: usize = core_id.0 as usize;
        self.per_core_mailbox_full_events.fetch_add_relaxed(core_index, 1);
    }

    /// Counts appends.
    pub fn record_append_batch(&mut self, core_id: CoreId, group_id: RaftGroupId, count: u64)
        requires
            old(self).wf(),
            core_id.0 < old(self).core_count(),
            group_id.0 < old(self).group_count(),
        ensures
            final(self).wf(),
            final(self).per_core_appends@ == old(self).per_core_appends@.update(
                core_id.0 as int,
                admission::wrapping_sum(old(self).per_core_appends@[core_id.0 as int], count),
            ),
            final(self).per_group_appends@ == old(self).per_group_appends@.update(
                group_id.0 as int,
                admission::wrapping_sum(old(self).per_group_appends@[group_id.0 as int], count),
            ),
            *final(self) == (RuntimeMetricsInner {
                per_core_appends: final(self).per_core_appends,
                per_group_appends: final(self).per_group_appends,
                ..*old(self)
            }),
    {
        let core_index: usize = core_id.0 as usize;
        let group_index: usize = group_id.0 as usize;
        self.per_core_appends.fetch_add_relaxed(core_index, count);
        self.per_group_appends.fetch_add_relaxed(group_index, count);
    }

    /// Counts writes that were applied.
    pub fn record_applied_mutation_batch(&mut self, core_id: CoreId, group_id: RaftGroupId, count: u64, apply_ns: u64)
        requires
            old(self).wf(),
            core_id.0 < old(self).core_count(),
            group_id.0 < old(self).group_count(),
        ensures
            final(self).wf(),
            final(self).per_core_applied_mutations@ == old(self).per_core_applied_mutations@.update(
                core_id.0 as int,
                admission::wrapping_sum(old(self).per_core_applied_mutations@[core_id.0 as int], count),
            ),
            final(self).per_group_applied_mutations@ == old(self).per_group_applied_mutations@.update(
                group_id.0 as int,
                admission::wrapping_sum(old(self).per_group_applied_mutations@[group_id.0 as int], count),
            ),
            final(self).per_core_mutation_apply_ns@ == old(self).per_core_mutation_apply_ns@.update(
                core_id.0 as int,
                admission::wrapping_sum(old(self).per_core_mutation_apply_ns@[core_id.0 as int], apply_ns),
            ),
            final(self).per_group_mutation_apply_ns@ == old(self).per_group_mutation_apply_ns@.update(
                group_id.0 as int,
                admission::wrapping_sum(old(self).per_group_mutation_apply_ns@[group_id.0 as int], apply_ns),
            ),
            *final(self) == (RuntimeMetricsInner {
                per_core_applied_mutations: final(self).per_core_applied_mutations,
                per_group_applied_mutations: final(self).per_group_applied_mutations,
                per_core_mutation_apply_ns: final(self).per_core_mutation_apply_ns,
                per_group_mutation_apply_ns: final(self).per_group_mutation_apply_ns,
                ..*old(self)
            }),
    {
        let core_index: usize = core_id.0 as usize;
        let group_index: usize = group_id.0 as usize;
        self.per_core_applied_mutations.fetch_add_relaxed(core_index, count);
        self.per_group_applied_mutations.fetch_add_relaxed(group_index, count);
        self.per_core_mutation_apply_ns.fetch_add_relaxed(core_index, apply_ns);
        self.per_group_mutation_apply_ns.fetch_add_relaxed(group_index, apply_ns);
    }

    /// Counts the time that an engine took.
    pub fn record_group_engine_exec(&mut self, core_id: CoreId, group_id: RaftGroupId, exec_ns: u64)
        requires
            old(self).wf(),
            core_id.0 < old(self).core_count(),
            group_id.0 < old(self).group_count(),
        ensures
            final(self).wf(),
            final(self).per_core_group_engine_exec_ns@ == old(self).per_core_group_engine_exec_ns@.update(
                core_id.0 as int,
                admission::wrapping_sum(old(self).per_core_group_engine_exec_ns@[core_id.0 as int], exec_ns),
            ),
            final(self).per_group_group_engine_exec_ns@ == old(self).per_group_group_engine_exec_ns@.update(
                group_id.0 as int,
                admission::wrapping_sum(old(self).per_group_group_engine_exec_ns@[group_id.0 as int], exec_ns),
            ),
            *final(self) == (RuntimeMetricsInner {
                per_core_group_engine_exec_ns: final(self).per_core_group_engine_exec_ns,
                per_group_group_engine_exec_ns: final(self).per_group_group_engine_exec_ns,
                ..*old(self)
            }),
    {
        let core_index: usize = core_id.0 as usize;
        let group_index: usize = group_id.0 as usize;
        self.per_core_group_engine_exec_ns.fetch_add_relaxed(core_index, exec_ns);
        self.per_group_group_engine_exec_ns.fetch_add_relaxed(group_index, exec_ns);
    }

    /// Counts a command that left a group's mailbox.
    pub fn record_group_mailbox_dequeued(&mut self, group_id: RaftGroupId)
        requires
            old(self).wf(),
            group_id.0 < old(self).group_count(),
        ensures
            final(self).wf(),
            final(self).per_group_group_mailbox_depth@ == old(self).per_group_group_mailbox_depth@.update(
                group_id.0 as int,
                admission::saturating_difference(old(self).per_group_group_mailbox_depth@[group_id.0 as int], 1),
            ),
            *final(self) == (RuntimeMetricsInner {
                per_group_group_mailbox_depth: final(self).per_group_group_mailbox_depth,
                ..*old(self)
            }),
    {
        let group_index: usize = group_id.0 as usize;
        self.per_group_group_mailbox_depth.fetch_sub_saturating_relaxed(group_index, 1);
    }

    /// Counts a command that found its group's mailbox full.
    pub fn record_group_mailbox_full(&mut self, group_id: RaftGroupId)
        requires
            old(self).wf(),
            group_id.0 < old(self).group_count(),
        ensures
            final(self).wf(),
            final(self).per_group_group_mailbox_full_events@ == old(self).per_group_group_mailbox_full_events@.update(
                group_id.0 as int,
                admission::wrapping_sum(old(self).per_group_group_mailbox_full_events@[group_id.0 as int], 1),
            ),
            *final(self) == (RuntimeMetricsInner {
                per_group_group_mailbox_full_events: final(self).per_group_group_mailbox_full_events,
                ..*old(self)
            }),
    {
        let group_index: usize = group_id.0 as usize;
        self.per_group_group_mailbox_full_events.fetch_add_relaxed(group_index, 1);
    }

    /// Counts writes that went to replication together.
    pub fn record_raft_write_many(&mut self, core_id: CoreId, group_id: RaftGroupId, sample: RaftWriteManySample)
        requires
            old(self).wf(),
            core_id.0 < old(self).core_count(),
            group_id.0 < old(self).group_count(),
        ensures
            final(self).wf(),
            final(self).per_core_raft_write_many_batches@ == old(self).per_core_raft_write_many_batches@.update(
                core_id.0 as int,
                admission::wrapping_sum(old(self).per_core_raft_write_many_batches@[core_id.0 as int], 1),
            ),
            final(self).per_group_raft_write_many_batches@ == old(self).per_group_raft_write_many_batches@.update(
                group_id.0 as int,
                admission::wrapping_sum(old(self).per_group_raft_write_many_batches@[group_id.0 as int], 1),
            ),
            final(self).per_core_raft_write_many_commands@ == old(self).per_core_raft_write_many_commands@.update(
                core_id.0 as int,
                admission::wrapping_sum(old(self).per_core_raft_write_many_commands@[core_id.0 as int], sample.command_count),
            ),
            final(self).per_group_raft_write_many_commands@ == old(self).per_group_raft_write_many_commands@.update(
                group_id.0 as int,
                admission::wrapping_sum(old(self).per_group_raft_write_many_commands@[group_id.0 as int], sample.command_count),
            ),
            final(self).per_core_raft_write_many_logical_commands@ == old(self).per_core_raft_write_many_logical_commands@.update(
                core_id.0 as int,
                admission::wrapping_sum(old(self).per_core_raft_write_many_logical_commands@[core_id.0 as int], sample.logical_command_count),
            ),
            final(self).per_group_raft_write_many_logical_commands@ == old(self).per_group_raft_write_many_logical_commands@.update(
                group_id.0 as int,
                admission::wrapping_sum(old(self).per_group_raft_write_many_logical_commands@[group_id.0 as int], sample.logical_command_count),
            ),
            final(self).per_core_raft_write_many_responses@ == old(self).per_core_raft_write_many_responses@.update(
                core_id.0 as int,
                admission::wrapping_sum(old(self).per_core_raft_write_many_responses@[core_id.0 as int], sample.response_count),
            ),
            final(self).per_group_raft_write_many_responses@ == old(self).per_group_raft_write_many_responses@.update(
                group_id.0 as int,
                admission::wrapping_sum(old(self).per_group_raft_write_many_responses@[group_id.0 as int], sample.response_count),
            ),
            final(self).per_core_raft_write_many_submit_ns@ == old(self).per_core_raft_write_many_submit_ns@.update(
                core_id.0 as int,
                admission::wrapping_sum(old(self).per_core_raft_write_many_submit_ns@[core_id.0 as int], sample.submit_ns),
            ),
            final(self).per_group_raft_write_many_submit_ns@ == old(self).per_group_raft_write_many_submit_ns@.update(
                group_id.0 as int,
                admission::wrapping_sum(old(self).per_group_raft_write_many_submit_ns@[group_id.0 as int], sample.submit_ns),
            ),
            final(self).per_core_raft_write_many_response_ns@ == old(self).per_core_raft_write_many_response_ns@.update(
                core_id.0 as int,
                admission::wrapping_sum(old(self).per_core_raft_write_many_response_ns@[core_id.0 as int], sample.response_ns),
            ),
            final(self).per_group_raft_write_many_response_ns@ == old(self).per_group_raft_write_many_response_ns@.update(
                group_id.0 as int,
                admission::wrapping_sum(old(self).per_group_raft_write_many_response_ns@[group_id.0 as int], sample.response_ns),
            ),
            *final(self) == (RuntimeMetricsInner {
                per_core_raft_write_many_batches: final(self).per_core_raft_write_many_batches,
                per_group_raft_write_many_batches: final(self).per_group_raft_write_many_batches,
                per_core_raft_write_many_commands: final(self).per_core_raft_write_many_commands,
                per_group_raft_write_many_commands: final(self).per_group_raft_write_many_commands,
                per_core_raft_write_many_logical_commands: final(self).per_core_raft_write_many_logical_commands,
                per_group_raft_write_many_logical_commands: final(self).per_group_raft_write_many_logical_commands,
                per_core_raft_write_many_responses: final(self).per_core_raft_write_many_responses,
                per_group_raft_write_many_responses: final(self).per_group_raft_write_many_responses,
                per_core_raft_write_many_submit_ns: final(self).per_core_raft_write_many_submit_ns,
                per_group_raft_write_many_submit_ns: final(self).per_group_raft_write_many_submit_ns,
                per_core_raft_write_many_response_ns: final(self).per_core_raft_write_many_response_ns,
                per_group_raft_write_many_response_ns: final(self).per_group_raft_write_many_response_ns,
                ..*old(self)
            }),
    {
        let core_index: usize = core_id.0 as usize;
        let group_index: usize = group_id.0 as usize;
        self.per_core_raft_write_many_batches.fetch_add_relaxed(core_index, 1);
        self.per_group_raft_write_many_batches.fetch_add_relaxed(group_index, 1);
        self.per_core_raft_write_many_commands.fetch_add_relaxed(core_index, sample.command_count);
        self.per_group_raft_write_many_commands.fetch_add_relaxed(group_index, sample.command_count);
        self.per_core_raft_write_many_logical_commands.fetch_add_relaxed(core_index, sample.logical_command_count);
        self.per_group_raft_write_many_logical_commands.fetch_add_relaxed(group_index, sample.logical_command_count);
        self.per_core_raft_write_many_responses.fetch_add_relaxed(core_index, sample.response_count);
        self.per_group_raft_write_many_responses.fetch_add_relaxed(group_index, sample.response_count);
        self.per_core_raft_write_many_submit_ns.fetch_add_relaxed(core_index, sample.submit_ns);
        self.per_group_raft_write_many_submit_ns.fetch_add_relaxed(group_index, sample.submit_ns);
        self.per_core_raft_write_many_response_ns.fetch_add_relaxed(core_index, sample.response_ns);
        self.per_group_raft_write_many_response_ns.fetch_add_relaxed(group_index, sample.response_ns);
    }

    /// Counts replicated entries that were applied.
    pub fn record_raft_apply_batch(&mut self, core_id: CoreId, group_id: RaftGroupId, entry_count: u64, apply_ns: u64)
        requires
            old(self).wf(),
            core_id.0 < old(self).core_count(),
            group_id.0 < old(self).group_count(),
        ensures
            final(self).wf(),
            final(self).per_core_raft_apply_entries@ == old(self).per_core_raft_apply_entries@.update(
                core_id.0 as int,
                admission::wrapping_sum(old(self).per_core_raft_apply_entries@[core_id.0 as int], entry_count),
            ),
            final(self).per_group_raft_apply_entries@ == old(self).per_group_raft_apply_entries@.update(
                group_id.0 as int,
                admission::wrapping_sum(old(self).per_group_raft_apply_entries@[group_id.0 as int], entry_count),
            ),
            final(self).per_core_raft_apply_ns@ == old(self).per_core_raft_apply_ns@.update(
                core_id.0 as int,
                admission::wrapping_sum(old(self).per_core_raft_apply_ns@[core_id.0 as int], apply_ns),
            ),
            final(self).per_group_raft_apply_ns@ == old(self).per_group_raft_apply_ns@.update(
                group_id.0 as int,
                admission::wrapping_sum(old(self).per_group_raft_apply_ns@[group_id.0 as int], apply_ns),
            ),
            *final(self) == (RuntimeMetricsInner {
                per_core_raft_apply_entries: final(self).per_core_raft_apply_entries,
                per_group_raft_apply_entries: final(self).per_group_raft_apply_entries,
                per_core_raft_apply_ns: final(self).per_core_raft_apply_ns,
                per_group_raft_apply_ns: final(self).per_group_raft_apply_ns,
                ..*old(self)
            }),
    {
        let core_index: usize = core_id.0 as usize;
        let group_index: usize = group_id.0 as usize;
        self.per_core_raft_apply_entries.fetch_add_relaxed(core_index, entry_count);
        self.per_group_raft_apply_entries.fetch_add_relaxed(group_index, entry_count);
        self.per_core_raft_apply_ns.fetch_add_relaxed(core_index, apply_ns);
        self.per_group_raft_apply_ns.fetch_add_relaxed(group_index, apply_ns);
    }

    /// Counts a snapshot that was built; of its sizes the latest stand.
    pub fn record_raft_snapshot_build(&mut self, group_id: RaftGroupId, sample: RaftSnapshotBuildSample)
        requires
            old(self).wf(),
            group_id.0 < old(self).group_count(),
        ensures
            final(self).wf(),
            final(self).per_group_raft_snapshot_builds@ == old(self).per_group_raft_snapshot_builds@.update(
                group_id.0 as int,
                admission::wrapping_sum(old(self).per_group_raft_snapshot_builds@[group_id.0 as int], 1),
            ),
            final(self).per_group_raft_snapshot_build_ns@ == old(self).per_group_raft_snapshot_build_ns@.update(
                group_id.0 as int,
                admission::wrapping_sum(old(self).per_group_raft_snapshot_build_ns@[group_id.0 as int], sample.build_ns),
            ),
            final(self).per_group_raft_snapshot_body_bytes@ == old(self).per_group_raft_snapshot_body_bytes@.update(
                group_id.0 as int,
                sample.body_bytes,
            ),
            final(self).per_group_raft_snapshot_pointer_bytes@ == old(self).per_group_raft_snapshot_pointer_bytes@.update(
                group_id.0 as int,
                sample.pointer_bytes,
            ),
            final(self).per_group_raft_snapshot_streams@ == old(self).per_group_raft_snapshot_streams@.update(
                group_id.0 as int,
                sample.streams,
            ),
            final(self).per_group_raft_snapshot_external_uploads@ == old(self).per_group_raft_snapshot_external_uploads@.update(
                group_id.0 as int,
                if sample.external_upload {
                    admission::wrapping_sum(old(self).per_group_raft_snapshot_external_uploads@[group_id.0 as int], 1)
                } else {
                    old(self).per_group_raft_snapshot_external_uploads@[group_id.0 as int]
                },
            ),
            final(self).per_group_raft_snapshot_inline_fallbacks@ == old(self).per_group_raft_snapshot_inline_fallbacks@.update(
                group_id.0 as int,
                if sample.inline_fallback {
                    admission::wrapping_sum(old(self).per_group_raft_snapshot_inline_fallbacks@[group_id.0 as int], 1)
                } else {
                    old(self).per_group_raft_snapshot_inline_fallbacks@[group_id.0 as int]
                },
            ),
            *final(self) == (RuntimeMetricsInner {
                per_group_raft_snapshot_builds: final(self).per_group_raft_snapshot_builds,
                per_group_raft_snapshot_build_ns: final(self).per_group_raft_snapshot_build_ns,
                per_group_raft_snapshot_body_bytes: final(self).per_group_raft_snapshot_body_bytes,
                per_group_raft_snapshot_pointer_bytes: final(self).per_group_raft_snapshot_pointer_bytes,
                per_group_raft_snapshot_streams: final(self).per_group_raft_snapshot_streams,
                per_group_raft_snapshot_external_uploads: final(self).per_group_raft_snapshot_external_uploads,
                per_group_raft_snapshot_inline_fallbacks: final(self).per_group_raft_snapshot_inline_fallbacks,
                ..*old(self)
            }),
    {
        let group_index: usize = group_id.0 as usize;
        self.per_group_raft_snapshot_builds.fetch_add_relaxed(group_index, 1);
        self.per_group_raft_snapshot_build_ns.fetch_add_relaxed(group_index, sample.build_ns);
        self.per_group_raft_snapshot_body_bytes.store_relaxed(group_index, sample.body_bytes);
        self.per_group_raft_snapshot_pointer_bytes.store_relaxed(group_index, sample.pointer_bytes);
        self.per_group_raft_snapshot_streams.store_relaxed(group_index, sample.streams);
        if sample.external_upload {
            self.per_group_raft_snapshot_external_uploads.fetch_add_relaxed(group_index, 1);
        } else {
            assert(self.per_group_raft_snapshot_external_uploads@.update(group_index as int, self.per_group_raft_snapshot_external_uploads@[group_index as int])
                =~= self.per_group_raft_snapshot_external_uploads@);
        }
        if sample.inline_fallback {
            self.per_group_raft_snapshot_inline_fallbacks.fetch_add_relaxed(group_index, 1);
        } else {
            assert(self.per_group_raft_snapshot_inline_fallbacks@.update(group_index as int, self.per_group_raft_snapshot_inline_fallbacks@[group_index as int])
                =~= self.per_group_raft_snapshot_inline_fallbacks@);
        }
    }

    /// Counts records that were written to a log together.
    pub fn record_wal_batch(&mut self, core_id: CoreId, group_id: RaftGroupId, record_count: u64, write_ns: u64, sync_ns: u64)
        requires
            old(self).wf(),
            core_id.0 < old(self).core_count(),
            group_id.0 < old(self).group_count(),
        ensures
            final(self).wf(),
            final(self).per_core_wal_batches@ == old(self).per_core_wal_batches@.update(
                core_id.0 as int,
                admission::wrapping_sum(old(self).per_core_wal_batches@[core_id.0 as int], 1),
            ),
            final(self).per_group_wal_batches@ == old(self).per_group_wal_batches@.update(
                group_id.0 as int,
                admission::wrapping_sum(old(self).per_group_wal_batches@[group_id.0 as int], 1),
            ),
            final(self).per_core_wal_records@ == old(self).per_core_wal_records@.update(
                core_id.0 as int,
                admission::wrapping_sum(old(self).per_core_wal_records@[core_id.0 as int], record_count),
            ),
            final(self).per_group_wal_records@ == old(self).per_group_wal_records@.update(
                group_id.0 as int,
                admission::wrapping_sum(old(self).per_group_wal_records@[group_id.0 as int], record_count),
            ),
            final(self).per_core_wal_write_ns@ == old(self).per_core_wal_write_ns@.update(
                core_id.0 as int,
                admission::wrapping_sum(old(self).per_core_wal_write_ns@[core_id.0 as int], write_ns),
            ),
            final(self).per_group_wal_write_ns@ == old(self).per_group_wal_write_ns@.update(
                group_id.0 as int,
                admission::wrapping_sum(old(self).per_group_wal_write_ns@[group_id.0 as int], write_ns),
            ),
            final(self).per_core_wal_sync_ns@ == old(self).per_core_wal_sync_ns@.update(
                core_id.0 as int,
                admission::wrapping_sum(old(self).per_core_wal_sync_ns@[core_id.0 as int], sync_ns),
            ),
            final(self).per_group_wal_sync_ns@ == old(self).per_group_wal_sync_ns@.update(
                group_id.0 as int,
                admission::wrapping_sum(old(self).per_group_wal_sync_ns@[group_id.0 as int], sync_ns),
            ),
            *final(self) == (RuntimeMetricsInner {
                per_core_wal_batches: final(self).per_core_wal_batches,
                per_group_wal_batches: final(self).per_group_wal_batches,
                per_core_wal_records: final(self).per_core_wal_records,
                per_group_wal_records: final(self).per_group_wal_records,
                per_core_wal_write_ns: final(self).per_core_wal_write_ns,
                per_group_wal_write_ns: final(self).per_group_wal_write_ns,
                per_core_wal_sync_ns: final(self).per_core_wal_sync_ns,
                per_group_wal_sync_ns: final(self).per_group_wal_sync_ns,
                ..*old(self)
            }),
    {
        let core_index: usize = core_id.0 as usize;
        let group_index: usize = group_id.0 as usize;
        self.per_core_wal_batches.fetch_add_relaxed(core_index, 1);
        self.per_group_wal_batches.fetch_add_relaxed(group_index, 1);
        self.per_core_wal_records.fetch_add_relaxed(core_index, record_count);
        self.per_group_wal_records.fetch_add_relaxed(group_index, record_count);
        self.per_core_wal_write_ns.fetch_add_relaxed(core_index, write_ns);
        self.per_group_wal_write_ns.fetch_add_relaxed(group_index, write_ns);
        self.per_core_wal_sync_ns.fetch_add_relaxed(core_index, sync_ns);
        self.per_group_wal_sync_ns.fetch_add_relaxed(group_index, sync_ns);
    }

    /// Counts a chunk that was uploaded.
    pub fn record_cold_upload(&mut self, bytes: u64, upload_ns: u64)
        requires
            old(self).wf(),
        ensures
            final(self).wf(),
            final(self).cold_flush_uploads@ == admission::wrapping_sum(old(self).cold_flush_uploads@, 1),
            final(self).cold_flush_upload_bytes@ == admission::wrapping_sum(old(self).cold_flush_upload_bytes@, bytes),
            final(self).cold_flush_upload_ns@ == admission::wrapping_sum(old(self).cold_flush_upload_ns@, upload_ns),
            *final(self) == (RuntimeMetricsInner {
                cold_flush_uploads: final(self).cold_flush_uploads,
                cold_flush_upload_bytes: final(self).cold_flush_upload_bytes,
                cold_flush_upload_ns: final(self).cold_flush_upload_ns,
                ..*old(self)
            }),
    {
        self.cold_flush_uploads.fetch_add_relaxed(1);
        self.cold_flush_upload_bytes.fetch_add_relaxed(bytes);
        self.cold_flush_upload_ns.fetch_add_relaxed(upload_ns);
    }

    /// Counts a chunk that was published.
    pub fn record_cold_publish(&mut self, bytes: u64, publish_ns: u64)
        requires
            old(self).wf(),
        ensures
            final(self).wf(),
            final(self).cold_flush_publishes@ == admission::wrapping_sum(old(self).cold_flush_publishes@, 1),
            final(self).cold_flush_publish_bytes@ == admission::wrapping_sum(old(self).cold_flush_publish_bytes@, bytes),
            final(self).cold_flush_publish_ns@ == admission::wrapping_sum(old(self).cold_flush_publish_ns@, publish_ns),
            *final(self) == (RuntimeMetricsInner {
                cold_flush_publishes: final(self).cold_flush_publishes,
                cold_flush_publish_bytes: final(self).cold_flush_publish_bytes,
                cold_flush_publish_ns: final(self).cold_flush_publish_ns,
                ..*old(self)
            }),
    {
        self.cold_flush_publishes.fetch_add_relaxed(1);
        self.cold_flush_publish_bytes.fetch_add_relaxed(bytes);
        self.cold_flush_publish_ns.fetch_add_relaxed(publish_ns);
    }

    /// Counts objects that were collected.
    pub fn record_cold_gc_reclaimed(&mut self, entries: u64)
        requires
            old(self).wf(),
        ensures
            final(self).wf(),
            final(self).cold_gc_reclaimed@ == admission::wrapping_sum(old(self).cold_gc_reclaimed@, entries),
            *final(self) == (RuntimeMetricsInner {
                cold_gc_reclaimed: final(self).cold_gc_reclaimed,
                ..*old(self)
            }),
    {
        self.cold_gc_reclaimed.fetch_add_relaxed(entries);
    }

    /// Counts a chunk that could not be uploaded.
    pub fn record_cold_flush_write_error(&mut self)
        requires
            old(self).wf(),
        ensures
            final(self).wf(),
            final(self).cold_flush_write_errors@ == admission::wrapping_sum(old(self).cold_flush_write_errors@, 1),
            *final(self) == (RuntimeMetricsInner {
                cold_flush_write_errors: final(self).cold_flush_write_errors,
                ..*old(self)
            }),
    {
        self.cold_flush_write_errors.fetch_add_relaxed(1);
    }

    /// Counts a collection that failed.
    pub fn record_cold_gc_error(&mut self)
        requires
            old(self).wf(),
        ensures
            final(self).wf(),
            final(self).cold_gc_errors@ == admission::wrapping_sum(old(self).cold_gc_errors@, 1),
            *final(self) == (RuntimeMetricsInner {
                cold_gc_errors: final(self).cold_gc_errors,
                ..*old(self)
            }),
    {
        self.cold_gc_errors.fetch_add_relaxed(1);
    }

    /// Notes how many bytes are hot.
    pub fn record_cold_hot_backlog(&mut self, group_id: RaftGroupId, stream_hot_bytes: u64, group_hot_bytes: u64)
        requires
            old(self).wf(),
            group_id.0 < old(self).group_count(),
        ensures
            final(self).wf(),
            final(self).per_group_cold_hot_bytes@ == old(self).per_group_cold_hot_bytes@.update(
                group_id.0 as int,
                group_hot_bytes,
            ),
            final(self).per_group_cold_hot_bytes_max@ == old(self).per_group_cold_hot_bytes_max@.update(
                group_id.0 as int,
                counters::larger(old(self).per_group_cold_hot_bytes_max@[group_id.0 as int], group_hot_bytes),
            ),
            final(self).cold_hot_stream_bytes_max@ == counters::larger(old(self).cold_hot_stream_bytes_max@, stream_hot_bytes),
            *final(self) == (RuntimeMetricsInner {
                per_group_cold_hot_bytes: final(self).per_group_cold_hot_bytes,
                per_group_cold_hot_bytes_max: final(self).per_group_cold_hot_bytes_max,
                cold_hot_stream_bytes_max: final(self).cold_hot_stream_bytes_max,
                ..*old(self)
            }),
    {
        let group_index: usize = group_id.0 as usize;
        self.per_group_cold_hot_bytes.store_relaxed(group_index, group_hot_bytes);
        self.per_group_cold_hot_bytes_max.fetch_max_relaxed(group_index, group_hot_bytes);
        self.cold_hot_stream_bytes_max.fetch_max_relaxed(stream_hot_bytes);
    }

    /// Counts a write that was held back.
    pub fn record_cold_backpressure(&mut self, core_id: CoreId, group_id: RaftGroupId, incoming_bytes: u64)
        requires
            old(self).wf(),
            core_id.0 < old(self).core_count(),
            group_id.0 < old(self).group_count(),
        ensures
            final(self).wf(),
            final(self).per_core_cold_backpressure_events@ == old(self).per_core_cold_backpressure_events@.update(
                core_id.0 as int,
                admission::wrapping_sum(old(self).per_core_cold_backpressure_events@[core_id.0 as int], 1),
            ),
            final(self).per_group_cold_backpressure_events@ == old(self).per_group_cold_backpressure_events@.update(
                group_id.0 as int,
                admission::wrapping_sum(old(self).per_group_cold_backpressure_events@[group_id.0 as int], 1),
            ),
            final(self).cold_backpressure_bytes@ == admission::wrapping_sum(old(self).cold_backpressure_bytes@, incoming_bytes),
            *final(self) == (RuntimeMetricsInner {
                per_core_cold_backpressure_events: final(self).per_core_cold_backpressure_events,
                per_group_cold_backpressure_events: final(self).per_group_cold_backpressure_events,
                cold_backpressure_bytes: final(self).cold_backpressure_bytes,
                ..*old(self)
            }),
    {
        let core_index: usize = core_id.0 as usize;
        let group_index: usize = group_id.0 as usize;
        self.per_core_cold_backpressure_events.fetch_add_relaxed(core_index, 1);
        self.per_group_cold_backpressure_events.fetch_add_relaxed(group_index, 1);
        self.cold_backpressure_bytes.fetch_add_relaxed(incoming_bytes);
    }

    /// Counts readers that wait.
    pub fn record_read_watchers_added(&mut self, core_id: CoreId, count: usize)
        requires
            old(self).wf(),
            core_id.0 < old(self).core_count(),
        ensures
            final(self).wf(),
            final(self).per_core_live_read_waiters@ == old(self).per_core_live_read_waiters@.update(
                core_id.0 as int,
                admission::wrapping_sum(old(self).per_core_live_read_waiters@[core_id.0 as int], count as u64),
            ),
            *final(self) == (RuntimeMetricsInner {
                per_core_live_read_waiters: final(self).per_core_live_read_waiters,
                ..*old(self)
            }),
    {
        let core_index: usize = core_id.0 as usize;
        self.per_core_live_read_waiters.fetch_add_relaxed(core_index, count as u64);
    }

    /// Counts readers that wait no longer.
    pub fn record_read_watchers_removed(&mut self, core_id: CoreId, count: usize)
        requires
            old(self).wf(),
            core_id.0 < old(self).core_count(),
        ensures
            final(self).wf(),
            final(self).per_core_live_read_waiters@ == old(self).per_core_live_read_waiters@.update(
                core_id.0 as int,
                counters::wrapping_difference(old(self).per_core_live_read_waiters@[core_id.0 as int], count as u64),
            ),
            *final(self) == (RuntimeMetricsInner {
                per_core_live_read_waiters: final(self).per_core_live_read_waiters,
                ..*old(self)
            }),
    {
        let core_index: usize = core_id.0 as usize;
        self.per_core_live_read_waiters.fetch_sub_relaxed(core_index, count as u64);
    }

    /// Counts a reader that may not wait.
    pub fn record_live_read_backpressure(&mut self, core_id: CoreId)
        requires
            old(self).wf(),
            core_id.0 < old(self).core_count(),
        ensures
            final(self).wf(),
            final(self).per_core_live_read_backpressure_events@ == old(self).per_core_live_read_backpressure_events@.update(
                core_id.0 as int,
                admission::wrapping_sum(old(self).per_core_live_read_backpressure_events@[core_id.0 as int], 1),
            ),
            *final(self) == (RuntimeMetricsInner {
                per_core_live_read_backpressure_events: final(self).per_core_live_read_backpressure_events,
                ..*old(self)
            }),
    {
        let core_index: usize = core_id.0 as usize;
        self.per_core_live_read_backpressure_events.fetch_add_relaxed(core_index, 1);
    }

    /// Counts an append.
    pub fn record_append(&mut self, core_id: CoreId, group_id: RaftGroupId)
        requires
            old(self).wf(),
            core_id.0 < old(self).core_count(),
            group_id.0 < old(self).group_count(),
        ensures
            final(self).wf(),
            final(self).per_core_appends@ == old(self).per_core_appends@.update(
                core_id.0 as int,
                admission::wrapping_sum(old(self).per_core_appends@[core_id.0 as int], 1),
            ),
            final(self).per_group_appends@ == old(self).per_group_appends@.update(
                group_id.0 as int,
                admission::wrapping_sum(old(self).per_group_appends@[group_id.0 as int], 1),
            ),
            *final(self) == (RuntimeMetricsInner {
                per_core_appends: final(self).per_core_appends,
                per_group_appends: final(self).per_group_appends,
                ..*old(self)
            }),
    {
        self.record_append_batch(core_id, group_id, 1);
    }

    /// Counts a write that was applied.
    pub fn record_applied_mutation(&mut self, core_id: CoreId, group_id: RaftGroupId, apply_ns: u64)
        requires
            old(self).wf(),
            core_id.0 < old(self).core_count(),
            group_id.0 < old(self).group_count(),
        ensures
            final(self).wf(),
            final(self).per_core_applied_mutations@ == old(self).per_core_applied_mutations@.update(
                core_id.0 as int,
                admission::wrapping_sum(old(self).per_core_applied_mutations@[core_id.0 as int], 1),
            ),
            final(self).per_group_applied_mutations@ == old(
                self
            ).per_group_applied_mutations@.update(
                group_id.0 as int,
                admission::wrapping_sum(
                    old(self).per_group_applied_mutations@[group_id.0 as int],
                    1,
                ),
            ),
            final(self).per_core_mutation_apply_ns@ == old(self).per_core_mutation_apply_ns@.update(
                core_id.0 as int,
                admission::wrapping_sum(
                    old(self).per_core_mutation_apply_ns@[core_id.0 as int],
                    apply_ns,
                ),
            ),
            final(self).per_group_mutation_apply_ns@ == old(
                self
            ).per_group_mutation_apply_ns@.update(
                group_id.0 as int,
                admission::wrapping_sum(
                    old(self).per_group_mutation_apply_ns@[group_id.0 as int],
                    apply_ns,
                ),
            ),
            *final(self) == (RuntimeMetricsInner {
                per_core_applied_mutations: final(self).per_core_applied_mutations,
                per_group_applied_mutations: final(self).per_group_applied_mutations,
                per_core_mutation_apply_ns: final(self).per_core_mutation_apply_ns,
                per_group_mutation_apply_ns: final(self).per_group_mutation_apply_ns,
                ..*old(self)
            }),
    {
        self.record_applied_mutation_batch(core_id, group_id, 1, apply_ns);
    }

    /// Counts a command that came to a group's mailbox, and notes how deep the
    /// mailbox has been.
    pub fn record_group_mailbox_enqueued(&mut self, group_id: RaftGroupId)
        requires
            old(self).wf(),
            group_id.0 < old(self).group_count(),
        ensures
            final(self).wf(),
            final(self).per_group_group_mailbox_depth@ == old(
                self
            ).per_group_group_mailbox_depth@.update(
                group_id.0 as int,
                admission::wrapping_sum(
                    old(self).per_group_group_mailbox_depth@[group_id.0 as int],
                    1,
                ),
            ),
            final(self).per_group_group_mailbox_max_depth@ == old(
                self
            ).per_group_group_mailbox_max_depth@.update(
                group_id.0 as int,
                counters::larger(
                    old(self).per_group_group_mailbox_max_depth@[group_id.0 as int],
                    counters::next_depth(
                        old(self).per_group_group_mailbox_depth@[group_id.0 as int],
                    ),
                ),
            ),
            *final(self) == (RuntimeMetricsInner {
                per_group_group_mailbox_depth: final(self).per_group_group_mailbox_depth,
                per_group_group_mailbox_max_depth: final(self).per_group_group_mailbox_max_depth,
                ..*old(self)
            }),
    {
        let group_index: usize = group_id.0 as usize;
        let depth: u64 = self.per_group_group_mailbox_depth.fetch_add_relaxed(group_index, 1);
        self.per_group_group_mailbox_max_depth.fetch_max_relaxed(
            group_index,
            depth.saturating_add(1),
        );
    }

    /// Counts a reader that waits.
    pub fn record_read_watcher_added(&mut self, core_id: CoreId)
        requires
            old(self).wf(),
            core_id.0 < old(self).core_count(),
        ensures
            final(self).wf(),
            final(self).per_core_live_read_waiters@ == old(self).per_core_live_read_waiters@.update(
                core_id.0 as int,
                admission::wrapping_sum(old(self).per_core_live_read_waiters@[core_id.0 as int], 1),
            ),
            *final(self) == (RuntimeMetricsInner {
                per_core_live_read_waiters: final(self).per_core_live_read_waiters,
                ..*old(self)
            }),
    {
        self.record_read_watchers_added(core_id, 1);
    }
}

impl RuntimeMetrics {
    /// The counters as they stand.
    pub fn snapshot(&self) -> (r: RuntimeMetricsSnapshot)
        requires
            self.inner.can_be_summed(),
        ensures
            r.accepted_appends == counters::total(self.inner.per_core_appends@),
            r.per_core_appends@ == self.inner.per_core_appends@,
            r.per_group_appends@ == self.inner.per_group_appends@,
            r.applied_mutations == counters::total(self.inner.per_core_applied_mutations@),
            r.per_core_applied_mutations@ == self.inner.per_core_applied_mutations@,
            r.per_group_applied_mutations@ == self.inner.per_group_applied_mutations@,
            r.mutation_apply_ns == counters::total(self.inner.per_core_mutation_apply_ns@),
            r.per_core_mutation_apply_ns@ == self.inner.per_core_mutation_apply_ns@,
            r.per_group_mutation_apply_ns@ == self.inner.per_group_mutation_apply_ns@,
            r.group_lock_wait_ns == counters::total(self.inner.per_core_group_lock_wait_ns@),
            r.per_core_group_lock_wait_ns@ == self.inner.per_core_group_lock_wait_ns@,
            r.per_group_group_lock_wait_ns@ == self.inner.per_group_group_lock_wait_ns@,
            r.group_engine_exec_ns == counters::total(self.inner.per_core_group_engine_exec_ns@),
            r.per_core_group_engine_exec_ns@ == self.inner.per_core_group_engine_exec_ns@,
            r.per_group_group_engine_exec_ns@ == self.inner.per_group_group_engine_exec_ns@,
            r.group_mailbox_depth == counters::total(self.inner.per_group_group_mailbox_depth@),
            r.per_group_group_mailbox_depth@ == self.inner.per_group_group_mailbox_depth@,
            r.group_mailbox_max_depth == counters::largest(self.inner.per_group_group_mailbox_max_depth@),
            r.per_group_group_mailbox_max_depth@ == self.inner.per_group_group_mailbox_max_depth@,
            r.group_mailbox_full_events == counters::total(self.inner.per_group_group_mailbox_full_events@),
            r.per_group_group_mailbox_full_events@ == self.inner.per_group_group_mailbox_full_events@,
            r.raft_write_many_batches == counters::total(self.inner.per_core_raft_write_many_batches@),
            r.per_core_raft_write_many_batches@ == self.inner.per_core_raft_write_many_batches@,
            r.per_group_raft_write_many_batches@ == self.inner.per_group_raft_write_many_batches@,
            r.raft_write_many_commands == counters::total(self.inner.per_core_raft_write_many_commands@),
            r.per_core_raft_write_many_commands@ == self.inner.per_core_raft_write_many_commands@,
            r.per_group_raft_write_many_commands@ == self.inner.per_group_raft_write_many_commands@,
            r.raft_write_many_logical_commands == counters::total(self.inner.per_core_raft_write_many_logical_commands@),
            r.per_core_raft_write_many_logical_commands@ == self.inner.per_core_raft_write_many_logical_commands@,
            r.per_group_raft_write_many_logical_commands@ == self.inner.per_group_raft_write_many_logical_commands@,
            r.raft_write_many_responses == counters::total(self.inner.per_core_raft_write_many_responses@),
            r.per_core_raft_write_many_responses@ == self.inner.per_core_raft_write_many_responses@,
            r.per_group_raft_write_many_responses@ == self.inner.per_group_raft_write_many_responses@,
            r.raft_write_many_submit_ns == counters::total(self.inner.per_core_raft_write_many_submit_ns@),
            r.per_core_raft_write_many_submit_ns@ == self.inner.per_core_raft_write_many_submit_ns@,
            r.per_group_raft_write_many_submit_ns@ == self.inner.per_group_raft_write_many_submit_ns@,
            r.raft_write_many_response_ns == counters::total(self.inner.per_core_raft_write_many_response_ns@),
            r.per_core_raft_write_many_response_ns@ == self.inner.per_core_raft_write_many_response_ns@,
            r.per_group_raft_write_many_response_ns@ == self.inner.per_group_raft_write_many_response_ns@,
            r.raft_apply_entries == counters::total(self.inner.per_core_raft_apply_entries@),
            r.per_core_raft_apply_entries@ == self.inner.per_core_raft_apply_entries@,
            r.per_group_raft_apply_entries@ == self.inner.per_group_raft_apply_entries@,
            r.raft_apply_ns == counters::total(self.inner.per_core_raft_apply_ns@),
            r.per_core_raft_apply_ns@ == self.inner.per_core_raft_apply_ns@,
            r.per_group_raft_apply_ns@ == self.inner.per_group_raft_apply_ns@,
            r.raft_snapshot_builds == counters::total(self.inner.per_group_raft_snapshot_builds@),
            r.per_group_raft_snapshot_builds@ == self.inner.per_group_raft_snapshot_builds@,
            r.raft_snapshot_build_ns == counters::total(self.inner.per_group_raft_snapshot_build_ns@),
            r.per_group_raft_snapshot_build_ns@ == self.inner.per_group_raft_snapshot_build_ns@,
            r.raft_snapshot_body_bytes == counters::total(self.inner.per_group_raft_snapshot_body_bytes@),
            r.raft_snapshot_body_bytes_max == counters::largest(self.inner.per_group_raft_snapshot_body_bytes@),
            r.per_group_raft_snapshot_body_bytes@ == self.inner.per_group_raft_snapshot_body_bytes@,
            r.raft_snapshot_pointer_bytes == counters::total(self.inner.per_group_raft_snapshot_pointer_bytes@),
            r.raft_snapshot_pointer_bytes_max == counters::largest(self.inner.per_group_raft_snapshot_pointer_bytes@),
            r.per_group_raft_snapshot_pointer_bytes@ == self.inner.per_group_raft_snapshot_pointer_bytes@,
            r.raft_snapshot_streams == counters::total(self.inner.per_group_raft_snapshot_streams@),
            r.raft_snapshot_streams_max == counters::largest(self.inner.per_group_raft_snapshot_streams@),
            r.per_group_raft_snapshot_streams@ == self.inner.per_group_raft_snapshot_streams@,
            r.raft_snapshot_external_uploads == counters::total(self.inner.per_group_raft_snapshot_external_uploads@),
            r.per_group_raft_snapshot_external_uploads@ == self.inner.per_group_raft_snapshot_external_uploads@,
            r.raft_snapshot_inline_fallbacks == counters::total(self.inner.per_group_raft_snapshot_inline_fallbacks@),
            r.per_group_raft_snapshot_inline_fallbacks@ == self.inner.per_group_raft_snapshot_inline_fallbacks@,
            r.live_read_waiters == counters::total(self.inner.per_core_live_read_waiters@),
            r.per_core_live_read_waiters@ == self.inner.per_core_live_read_waiters@,
            r.live_read_backpressure_events == counters::total(self.inner.per_core_live_read_backpressure_events@),
            r.per_core_live_read_backpressure_events@ == self.inner.per_core_live_read_backpressure_events@,
            r.routed_requests == counters::total(self.inner.per_core_routed_requests@),
            r.per_core_routed_requests@ == self.inner.per_core_routed_requests@,
            r.mailbox_send_wait_ns == counters::total(self.inner.per_core_mailbox_send_wait_ns@),
            r.per_core_mailbox_send_wait_ns@ == self.inner.per_core_mailbox_send_wait_ns@,
            r.mailbox_full_events == counters::total(self.inner.per_core_mailbox_full_events@),
            r.per_core_mailbox_full_events@ == self.inner.per_core_mailbox_full_events@,
            r.wal_batches == counters::total(self.inner.per_core_wal_batches@),
            r.per_core_wal_batches@ == self.inner.per_core_wal_batches@,
            r.per_group_wal_batches@ == self.inner.per_group_wal_batches@,
            r.wal_records == counters::total(self.inner.per_core_wal_records@),
            r.per_core_wal_records@ == self.inner.per_core_wal_records@,
            r.per_group_wal_records@ == self.inner.per_group_wal_records@,
            r.wal_write_ns == counters::total(self.inner.per_core_wal_write_ns@),
            r.per_core_wal_write_ns@ == self.inner.per_core_wal_write_ns@,
            r.per_group_wal_write_ns@ == self.inner.per_group_wal_write_ns@,
            r.wal_sync_ns == counters::total(self.inner.per_core_wal_sync_ns@),
            r.per_core_wal_sync_ns@ == self.inner.per_core_wal_sync_ns@,
            r.per_group_wal_sync_ns@ == self.inner.per_group_wal_sync_ns@,
            r.cold_flush_uploads == self.inner.cold_flush_uploads@,
            r.cold_flush_upload_bytes == self.inner.cold_flush_upload_bytes@,
            r.cold_flush_upload_ns == self.inner.cold_flush_upload_ns@,
            r.cold_flush_publishes == self.inner.cold_flush_publishes@,
            r.cold_flush_publish_bytes == self.inner.cold_flush_publish_bytes@,
            r.cold_flush_publish_ns == self.inner.cold_flush_publish_ns@,
            r.cold_orphan_cleanup_attempts == self.inner.cold_orphan_cleanup_attempts@,
            r.cold_orphan_cleanup_errors == self.inner.cold_orphan_cleanup_errors@,
            r.cold_orphan_bytes == self.inner.cold_orphan_bytes@,
            r.cold_gc_reclaimed == self.inner.cold_gc_reclaimed@,
            r.cold_gc_errors == self.inner.cold_gc_errors@,
            r.cold_flush_write_errors == self.inner.cold_flush_write_errors@,
            r.cold_hot_bytes == counters::total(self.inner.per_group_cold_hot_bytes@),
            r.per_group_cold_hot_bytes@ == self.inner.per_group_cold_hot_bytes@,
            r.cold_hot_group_bytes_max == counters::largest(self.inner.per_group_cold_hot_bytes_max@),
            r.per_group_cold_hot_bytes_max@ == self.inner.per_group_cold_hot_bytes_max@,
            r.cold_hot_stream_bytes_max == self.inner.cold_hot_stream_bytes_max@,
            r.cold_backpressure_events == counters::total(self.inner.per_core_cold_backpressure_events@),
            r.per_core_cold_backpressure_events@ == self.inner.per_core_cold_backpressure_events@,
            r.per_group_cold_backpressure_events@ == self.inner.per_group_cold_backpressure_events@,
            r.cold_backpressure_bytes == self.inner.cold_backpressure_bytes@,
    {
        let inner = &self.inner;
        RuntimeMetricsSnapshot {
            accepted_appends: sum_of(&inner.per_core_appends),
            per_core_appends: inner.per_core_appends.load(),
            per_group_appends: inner.per_group_appends.load(),
            applied_mutations: sum_of(&inner.per_core_applied_mutations),
            per_core_applied_mutations: inner.per_core_applied_mutations.load(),
            per_group_applied_mutations: inner.per_group_applied_mutations.load(),
            mutation_apply_ns: sum_of(&inner.per_core_mutation_apply_ns),
            per_core_mutation_apply_ns: inner.per_core_mutation_apply_ns.load(),
            per_group_mutation_apply_ns: inner.per_group_mutation_apply_ns.load(),
            group_lock_wait_ns: sum_of(&inner.per_core_group_lock_wait_ns),
            per_core_group_lock_wait_ns: inner.per_core_group_lock_wait_ns.load(),
            per_group_group_lock_wait_ns: inner.per_group_group_lock_wait_ns.load(),
            group_engine_exec_ns: sum_of(&inner.per_core_group_engine_exec_ns),
            per_core_group_engine_exec_ns: inner.per_core_group_engine_exec_ns.load(),
            per_group_group_engine_exec_ns: inner.per_group_group_engine_exec_ns.load(),
            group_mailbox_depth: sum_of(&inner.per_group_group_mailbox_depth),
            per_group_group_mailbox_depth: inner.per_group_group_mailbox_depth.load(),
            group_mailbox_max_depth: max_or_zero(&inner.per_group_group_mailbox_max_depth),
            per_group_group_mailbox_max_depth: inner.per_group_group_mailbox_max_depth.load(),
            group_mailbox_full_events: sum_of(&inner.per_group_group_mailbox_full_events),
            per_group_group_mailbox_full_events: inner.per_group_group_mailbox_full_events.load(),
            raft_write_many_batches: sum_of(&inner.per_core_raft_write_many_batches),
            per_core_raft_write_many_batches: inner.per_core_raft_write_many_batches.load(),
            per_group_raft_write_many_batches: inner.per_group_raft_write_many_batches.load(),
            raft_write_many_commands: sum_of(&inner.per_core_raft_write_many_commands),
            per_core_raft_write_many_commands: inner.per_core_raft_write_many_commands.load(),
            per_group_raft_write_many_commands: inner.per_group_raft_write_many_commands.load(),
            raft_write_many_logical_commands: sum_of(&inner.per_core_raft_write_many_logical_commands),
            per_core_raft_write_many_logical_commands: inner.per_core_raft_write_many_logical_commands.load(),
            per_group_raft_write_many_logical_commands: inner.per_group_raft_write_many_logical_commands.load(),
            raft_write_many_responses: sum_of(&inner.per_core_raft_write_many_responses),
            per_core_raft_write_many_responses: inner.per_core_raft_write_many_responses.load(),
            per_group_raft_write_many_responses: inner.per_group_raft_write_many_responses.load(),
            raft_write_many_submit_ns: sum_of(&inner.per_core_raft_write_many_submit_ns),
            per_core_raft_write_many_submit_ns: inner.per_core_raft_write_many_submit_ns.load(),
            per_group_raft_write_many_submit_ns: inner.per_group_raft_write_many_submit_ns.load(),
            raft_write_many_response_ns: sum_of(&inner.per_core_raft_write_many_response_ns),
            per_core_raft_write_many_response_ns: inner.per_core_raft_write_many_response_ns.load(),
            per_group_raft_write_many_response_ns: inner.per_group_raft_write_many_response_ns.load(),
            raft_apply_entries: sum_of(&inner.per_core_raft_apply_entries),
            per_core_raft_apply_entries: inner.per_core_raft_apply_entries.load(),
            per_group_raft_apply_entries: inner.per_group_raft_apply_entries.load(),
            raft_apply_ns: sum_of(&inner.per_core_raft_apply_ns),
            per_core_raft_apply_ns: inner.per_core_raft_apply_ns.load(),
            per_group_raft_apply_ns: inner.per_group_raft_apply_ns.load(),
            raft_snapshot_builds: sum_of(&inner.per_group_raft_snapshot_builds),
            per_group_raft_snapshot_builds: inner.per_group_raft_snapshot_builds.load(),
            raft_snapshot_build_ns: sum_of(&inner.per_group_raft_snapshot_build_ns),
            per_group_raft_snapshot_build_ns: inner.per_group_raft_snapshot_build_ns.load(),
            raft_snapshot_body_bytes: sum_of(&inner.per_group_raft_snapshot_body_bytes),
            raft_snapshot_body_bytes_max: max_or_zero(&inner.per_group_raft_snapshot_body_bytes),
            per_group_raft_snapshot_body_bytes: inner.per_group_raft_snapshot_body_bytes.load(),
            raft_snapshot_pointer_bytes: sum_of(&inner.per_group_raft_snapshot_pointer_bytes),
            raft_snapshot_pointer_bytes_max: max_or_zero(&inner.per_group_raft_snapshot_pointer_bytes),
            per_group_raft_snapshot_pointer_bytes: inner.per_group_raft_snapshot_pointer_bytes.load(),
            raft_snapshot_streams: sum_of(&inner.per_group_raft_snapshot_streams),
            raft_snapshot_streams_max: max_or_zero(&inner.per_group_raft_snapshot_streams),
            per_group_raft_snapshot_streams: inner.per_group_raft_snapshot_streams.load(),
            raft_snapshot_external_uploads: sum_of(&inner.per_group_raft_snapshot_external_uploads),
            per_group_raft_snapshot_external_uploads: inner.per_group_raft_snapshot_external_uploads.load(),
            raft_snapshot_inline_fallbacks: sum_of(&inner.per_group_raft_snapshot_inline_fallbacks),
            per_group_raft_snapshot_inline_fallbacks: inner.per_group_raft_snapshot_inline_fallbacks.load(),
            live_read_waiters: sum_of(&inner.per_core_live_read_waiters),
            per_core_live_read_waiters: inner.per_core_live_read_waiters.load(),
            live_read_backpressure_events: sum_of(&inner.per_core_live_read_backpressure_events),
            per_core_live_read_backpressure_events: inner.per_core_live_read_backpressure_events.load(),
            routed_requests: sum_of(&inner.per_core_routed_requests),
            per_core_routed_requests: inner.per_core_routed_requests.load(),
            mailbox_send_wait_ns: sum_of(&inner.per_core_mailbox_send_wait_ns),
            per_core_mailbox_send_wait_ns: inner.per_core_mailbox_send_wait_ns.load(),
            mailbox_full_events: sum_of(&inner.per_core_mailbox_full_events),
            per_core_mailbox_full_events: inner.per_core_mailbox_full_events.load(),
            wal_batches: sum_of(&inner.per_core_wal_batches),
            per_core_wal_batches: inner.per_core_wal_batches.load(),
            per_group_wal_batches: inner.per_group_wal_batches.load(),
            wal_records: sum_of(&inner.per_core_wal_records),
            per_core_wal_records: inner.per_core_wal_records.load(),
            per_group_wal_records: inner.per_group_wal_records.load(),
            wal_write_ns: sum_of(&inner.per_core_wal_write_ns),
            per_core_wal_write_ns: inner.per_core_wal_write_ns.load(),
            per_group_wal_write_ns: inner.per_group_wal_write_ns.load(),
            wal_sync_ns: sum_of(&inner.per_core_wal_sync_ns),
            per_core_wal_sync_ns: inner.per_core_wal_sync_ns.load(),
            per_group_wal_sync_ns: inner.per_group_wal_sync_ns.load(),
            cold_flush_uploads: inner.cold_flush_uploads.load_relaxed(),
            cold_flush_upload_bytes: inner.cold_flush_upload_bytes.load_relaxed(),
            cold_flush_upload_ns: inner.cold_flush_upload_ns.load_relaxed(),
            cold_flush_publishes: inner.cold_flush_publishes.load_relaxed(),
            cold_flush_publish_bytes: inner.cold_flush_publish_bytes.load_relaxed(),
            cold_flush_publish_ns: inner.cold_flush_publish_ns.load_relaxed(),
            cold_orphan_cleanup_attempts: inner.cold_orphan_cleanup_attempts.load_relaxed(),
            cold_orphan_cleanup_errors: inner.cold_orphan_cleanup_errors.load_relaxed(),
            cold_orphan_bytes: inner.cold_orphan_bytes.load_relaxed(),
            cold_gc_reclaimed: inner.cold_gc_reclaimed.load_relaxed(),
            cold_gc_errors: inner.cold_gc_errors.load_relaxed(),
            cold_flush_write_errors: inner.cold_flush_write_errors.load_relaxed(),
            cold_hot_bytes: sum_of(&inner.per_group_cold_hot_bytes),
            per_group_cold_hot_bytes: inner.per_group_cold_hot_bytes.load(),
            cold_hot_group_bytes_max: max_or_zero(&inner.per_group_cold_hot_bytes_max),
            per_group_cold_hot_bytes_max: inner.per_group_cold_hot_bytes_max.load(),
            cold_hot_stream_bytes_max: inner.cold_hot_stream_bytes_max.load_relaxed(),
            cold_backpressure_events: sum_of(&inner.per_core_cold_backpressure_events),
            per_core_cold_backpressure_events: inner.per_core_cold_backpressure_events.load(),
            per_group_cold_backpressure_events: inner.per_group_cold_backpressure_events.load(),
            cold_backpressure_bytes: inner.cold_backpressure_bytes.load_relaxed(),
        }
    }
}

/// The metrics as an engine sees them.
#[derive(Debug)]
pub struct GroupEngineMetrics {
    pub inner: RuntimeMetricsInner,
}

impl GroupEngineMetrics {
    /// Counts records that were written to a log together.
    pub fn record_wal_batch(
        &mut self,
        placement: ShardPlacement,
        record_count: usize,
        write_ns: u64,
        sync_ns: u64,
    )
        requires
            old(self).inner.wf(),
            placement.core_id.0 < old(self).inner.core_count(),
            placement.raft_group_id.0 < old(self).inner.group_count(),
        ensures
            final(self).inner.wf(),
            final(self).inner.per_core_wal_batches@ == old(self).inner.per_core_wal_batches@.update(
                placement.core_id.0 as int,
                admission::wrapping_sum(old(self).inner.per_core_wal_batches@[placement.core_id.0 as int], 1),
            ),
            final(self).inner.per_group_wal_batches@ == old(self).inner.per_group_wal_batches@.update(
                placement.raft_group_id.0 as int,
                admission::wrapping_sum(old(self).inner.per_group_wal_batches@[placement.raft_group_id.0 as int], 1),
            ),
            final(self).inner.per_core_wal_records@ == old(self).inner.per_core_wal_records@.update(
                placement.core_id.0 as int,
                admission::wrapping_sum(old(self).inner.per_core_wal_records@[placement.core_id.0 as int], record_count as u64),
            ),
            final(self).inner.per_group_wal_records@ == old(self).inner.per_group_wal_records@.update(
                placement.raft_group_id.0 as int,
                admission::wrapping_sum(old(self).inner.per_group_wal_records@[placement.raft_group_id.0 as int], record_count as u64),
            ),
            final(self).inner.per_core_wal_write_ns@ == old(self).inner.per_core_wal_write_ns@.update(
                placement.core_id.0 as int,
                admission::wrapping_sum(old(self).inner.per_core_wal_write_ns@[placement.core_id.0 as int], write_ns),
            ),
            final(self).inner.per_group_wal_write_ns@ == old(self).inner.per_group_wal_write_ns@.update(
                placement.raft_group_id.0 as int,
                admission::wrapping_sum(old(self).inner.per_group_wal_write_ns@[placement.raft_group_id.0 as int], write_ns),
            ),
            final(self).inner.per_core_wal_sync_ns@ == old(self).inner.per_core_wal_sync_ns@.update(
                placement.core_id.0 as int,
                admission::wrapping_sum(old(self).inner.per_core_wal_sync_ns@[placement.core_id.0 as int], sync_ns),
            ),
            final(self).inner.per_group_wal_sync_ns@ == old(self).inner.per_group_wal_sync_ns@.update(
                placement.raft_group_id.0 as int,
                admission::wrapping_sum(old(self).inner.per_group_wal_sync_ns@[placement.raft_group_id.0 as int], sync_ns),
            ),
            final(self).inner == (RuntimeMetricsInner {
                per_core_wal_batches: final(self).inner.per_core_wal_batches,
                per_group_wal_batches: final(self).inner.per_group_wal_batches,
                per_core_wal_records: final(self).inner.per_core_wal_records,
                per_group_wal_records: final(self).inner.per_group_wal_records,
                per_core_wal_write_ns: final(self).inner.per_core_wal_write_ns,
                per_group_wal_write_ns: final(self).inner.per_group_wal_write_ns,
                per_core_wal_sync_ns: final(self).inner.per_core_wal_sync_ns,
                per_group_wal_sync_ns: final(self).inner.per_group_wal_sync_ns,
                ..old(self).inner
            }),
    {
        self.inner.record_wal_batch(
            placement.core_id,
            placement.raft_group_id,
            record_count as u64,
            write_ns,
            sync_ns,
        );
    }

    /// Counts writes that went to replication together.
    pub fn record_raft_write_many(
        &mut self,
        placement: ShardPlacement,
        command_count: usize,
        logical_command_count: usize,
        response_count: usize,
        submit_ns: u64,
        response_ns: u64,
    )
        requires
            old(self).inner.wf(),
            placement.core_id.0 < old(self).inner.core_count(),
            placement.raft_group_id.0 < old(self).inner.group_count(),
        ensures
            final(self).inner.wf(),
            final(self).inner.per_core_raft_write_many_batches@ == old(self).inner.per_core_raft_write_many_batches@.update(
                placement.core_id.0 as int,
                admission::wrapping_sum(old(self).inner.per_core_raft_write_many_batches@[placement.core_id.0 as int], 1),
            ),
            final(self).inner.per_group_raft_write_many_batches@ == old(self).inner.per_group_raft_write_many_batches@.update(
                placement.raft_group_id.0 as int,
                admission::wrapping_sum(old(self).inner.per_group_raft_write_many_batches@[placement.raft_group_id.0 as int], 1),
            ),
            final(self).inner.per_core_raft_write_many_commands@ == old(self).inner.per_core_raft_write_many_commands@.update(
                placement.core_id.0 as int,
                admission::wrapping_sum(old(self).inner.per_core_raft_write_many_commands@[placement.core_id.0 as int], command_count as u64),
            ),
            final(self).inner.per_group_raft_write_many_commands@ == old(self).inner.per_group_raft_write_many_commands@.update(
                placement.raft_group_id.0 as int,
                admission::wrapping_sum(old(self).inner.per_group_raft_write_many_commands@[placement.raft_group_id.0 as int], command_count as u64),
            ),
            final(self).inner.per_core_raft_write_many_logical_commands@ == old(self).inner.per_core_raft_write_many_logical_commands@.update(
                placement.core_id.0 as int,
                admission::wrapping_sum(old(self).inner.per_core_raft_write_many_logical_commands@[placement.core_id.0 as int], logical_command_count as u64),
            ),
            final(self).inner.per_group_raft_write_many_logical_commands@ == old(self).inner.per_group_raft_write_many_logical_commands@.update(
                placement.raft_group_id.0 as int,
                admission::wrapping_sum(old(self).inner.per_group_raft_write_many_logical_commands@[placement.raft_group_id.0 as int], logical_command_count as u64),
            ),
            final(self).inner.per_core_raft_write_many_responses@ == old(self).inner.per_core_raft_write_many_responses@.update(
                placement.core_id.0 as int,
                admission::wrapping_sum(old(self).inner.per_core_raft_write_many_responses@[placement.core_id.0 as int], response_count as u64),
            ),
            final(self).inner.per_group_raft_write_many_responses@ == old(self).inner.per_group_raft_write_many_responses@.update(
                placement.raft_group_id.0 as int,
                admission::wrapping_sum(old(self).inner.per_group_raft_write_many_responses@[placement.raft_group_id.0 as int], response_count as u64),
            ),
            final(self).inner.per_core_raft_write_many_submit_ns@ == old(self).inner.per_core_raft_write_many_submit_ns@.update(
                placement.core_id.0 as int,
                admission::wrapping_sum(old(self).inner.per_core_raft_write_many_submit_ns@[placement.core_id.0 as int], submit_ns),
            ),
            final(self).inner.per_group_raft_write_many_submit_ns@ == old(self).inner.per_group_raft_write_many_submit_ns@.update(
                placement.raft_group_id.0 as int,
                admission::wrapping_sum(old(self).inner.per_group_raft_write_many_submit_ns@[placement.raft_group_id.0 as int], submit_ns),
            ),
            final(self).inner.per_core_raft_write_many_response_ns@ == old(self).inner.per_core_raft_write_many_response_ns@.update(
                placement.core_id.0 as int,
                admission::wrapping_sum(old(self).inner.per_core_raft_write_many_response_ns@[placement.core_id.0 as int], response_ns),
            ),
            final(self).inner.per_group_raft_write_many_response_ns@ == old(self).inner.per_group_raft_write_many_response_ns@.update(
                placement.raft_group_id.0 as int,
                admission::wrapping_sum(old(self).inner.per_group_raft_write_many_response_ns@[placement.raft_group_id.0 as int], response_ns),
            ),
            final(self).inner == (RuntimeMetricsInner {
                per_core_raft_write_many_batches: final(self).inner.per_core_raft_write_many_batches,
                per_group_raft_write_many_batches: final(self).inner.per_group_raft_write_many_batches,
                per_core_raft_write_many_commands: final(self).inner.per_core_raft_write_many_commands,
                per_group_raft_write_many_commands: final(self).inner.per_group_raft_write_many_commands,
                per_core_raft_write_many_logical_commands: final(self).inner.per_core_raft_write_many_logical_commands,
                per_group_raft_write_many_logical_commands: final(self).inner.per_group_raft_write_many_logical_commands,
                per_core_raft_write_many_responses: final(self).inner.per_core_raft_write_many_responses,
                per_group_raft_write_many_responses: final(self).inner.per_group_raft_write_many_responses,
                per_core_raft_write_many_submit_ns: final(self).inner.per_core_raft_write_many_submit_ns,
                per_group_raft_write_many_submit_ns: final(self).inner.per_group_raft_write_many_submit_ns,
                per_core_raft_write_many_response_ns: final(self).inner.per_core_raft_write_many_response_ns,
                per_group_raft_write_many_response_ns: final(self).inner.per_group_raft_write_many_response_ns,
                ..old(self).inner
            }),
    {
        self.inner.record_raft_write_many(
            placement.core_id,
            placement.raft_group_id,
            RaftWriteManySample {
                command_count: command_count as u64,
                logical_command_count: logical_command_count as u64,
                response_count: response_count as u64,
                submit_ns,
                response_ns,
            },
        );
    }

    /// Counts replicated entries that were applied.
    pub fn record_raft_apply_batch(
        &mut self,
        placement: ShardPlacement,
        entry_count: usize,
        apply_ns: u64,
    )
        requires
            old(self).inner.wf(),
            placement.core_id.0 < old(self).inner.core_count(),
            placement.raft_group_id.0 < old(self).inner.group_count(),
        ensures
            final(self).inner.wf(),
            final(self).inner.per_core_raft_apply_entries@ == old(self).inner.per_core_raft_apply_entries@.update(
                placement.core_id.0 as int,
                admission::wrapping_sum(old(self).inner.per_core_raft_apply_entries@[placement.core_id.0 as int], entry_count as u64),
            ),
            final(self).inner.per_group_raft_apply_entries@ == old(self).inner.per_group_raft_apply_entries@.update(
                placement.raft_group_id.0 as int,
                admission::wrapping_sum(old(self).inner.per_group_raft_apply_entries@[placement.raft_group_id.0 as int], entry_count as u64),
            ),
            final(self).inner.per_core_raft_apply_ns@ == old(self).inner.per_core_raft_apply_ns@.update(
                placement.core_id.0 as int,
                admission::wrapping_sum(old(self).inner.per_core_raft_apply_ns@[placement.core_id.0 as int], apply_ns),
            ),
            final(self).inner.per_group_raft_apply_ns@ == old(self).inner.per_group_raft_apply_ns@.update(
                placement.raft_group_id.0 as int,
                admission::wrapping_sum(old(self).inner.per_group_raft_apply_ns@[placement.raft_group_id.0 as int], apply_ns),
            ),
            final(self).inner == (RuntimeMetricsInner {
                per_core_raft_apply_entries: final(self).inner.per_core_raft_apply_entries,
                per_group_raft_apply_entries: final(self).inner.per_group_raft_apply_entries,
                per_core_raft_apply_ns: final(self).inner.per_core_raft_apply_ns,
                per_group_raft_apply_ns: final(self).inner.per_group_raft_apply_ns,
                ..old(self).inner
            }),
    {
        self.inner.record_raft_apply_batch(
            placement.core_id,
            placement.raft_group_id,
            entry_count as u64,
            apply_ns,
        );
    }

    /// Counts a snapshot that was built.
    pub fn record_raft_snapshot_build(
        &mut self,
        placement: ShardPlacement,
        stream_count: usize,
        body_bytes: usize,
        pointer_bytes: usize,
        build_ns: u64,
        external_upload: bool,
        inline_fallback: bool,
    )
        requires
            old(self).inner.wf(),
            placement.raft_group_id.0 < old(self).inner.group_count(),
        ensures
            final(self).inner.wf(),
            final(self).inner.per_group_raft_snapshot_builds@ == old(self).inner.per_group_raft_snapshot_builds@.update(
                placement.raft_group_id.0 as int,
                admission::wrapping_sum(old(self).inner.per_group_raft_snapshot_builds@[placement.raft_group_id.0 as int], 1),
            ),
            final(self).inner.per_group_raft_snapshot_build_ns@ == old(self).inner.per_group_raft_snapshot_build_ns@.update(
                placement.raft_group_id.0 as int,
                admission::wrapping_sum(old(self).inner.per_group_raft_snapshot_build_ns@[placement.raft_group_id.0 as int], build_ns),
            ),
            final(self).inner.per_group_raft_snapshot_body_bytes@ == old(self).inner.per_group_raft_snapshot_body_bytes@.update(
                placement.raft_group_id.0 as int,
                body_bytes as u64,
            ),
            final(self).inner.per_group_raft_snapshot_pointer_bytes@ == old(self).inner.per_group_raft_snapshot_pointer_bytes@.update(
                placement.raft_group_id.0 as int,
                pointer_bytes as u64,
            ),
            final(self).inner.per_group_raft_snapshot_streams@ == old(self).inner.per_group_raft_snapshot_streams@.update(
                placement.raft_group_id.0 as int,
                stream_count as u64,
            ),
            final(self).inner.per_group_raft_snapshot_external_uploads@ == old(self).inner.per_group_raft_snapshot_external_uploads@.update(
                placement.raft_group_id.0 as int,
                if external_upload {
                    admission::wrapping_sum(old(self).inner.per_group_raft_snapshot_external_uploads@[placement.raft_group_id.0 as int], 1)
                } else {
                    old(self).inner.per_group_raft_snapshot_external_uploads@[placement.raft_group_id.0 as int]
                },
            ),
            final(self).inner.per_group_raft_snapshot_inline_fallbacks@ == old(self).inner.per_group_raft_snapshot_inline_fallbacks@.update(
                placement.raft_group_id.0 as int,
                if inline_fallback {
                    admission::wrapping_sum(old(self).inner.per_group_raft_snapshot_inline_fallbacks@[placement.raft_group_id.0 as int], 1)
                } else {
                    old(self).inner.per_group_raft_snapshot_inline_fallbacks@[placement.raft_group_id.0 as int]
                },
            ),
            final(self).inner == (RuntimeMetricsInner {
                per_group_raft_snapshot_builds: final(self).inner.per_group_raft_snapshot_builds,
                per_group_raft_snapshot_build_ns: final(self).inner.per_group_raft_snapshot_build_ns,
                per_group_raft_snapshot_body_bytes: final(self).inner.per_group_raft_snapshot_body_bytes,
                per_group_raft_snapshot_pointer_bytes: final(self).inner.per_group_raft_snapshot_pointer_bytes,
                per_group_raft_snapshot_streams: final(self).inner.per_group_raft_snapshot_streams,
                per_group_raft_snapshot_external_uploads: final(self).inner.per_group_raft_snapshot_external_uploads,
                per_group_raft_snapshot_inline_fallbacks: final(self).inner.per_group_raft_snapshot_inline_fallbacks,
                ..old(self).inner
            }),
    {
        self.inner.record_raft_snapshot_build(
            placement.raft_group_id,
            RaftSnapshotBuildSample {
                streams: stream_count as u64,
                body_bytes: body_bytes as u64,
                pointer_bytes: pointer_bytes as u64,
                build_ns,
                external_upload,
                inline_fallback,
            },
        );
    }
}

} // verus!
