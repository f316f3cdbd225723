//! Errors of the runtime.

use vstd::prelude::*;
use crate::engine::errors;
use crate::engine::errors::{GroupEngineError, GroupLeaderHint};
use crate::ids::{CoreId, RaftGroupId, ShardPlacement};
use crate::stream::{StreamErrorCode, StreamErrorContext};
use crate::text;
use crate::text::decimal_text;

verus! {

/// Whether a request that failed may do better later.
#[derive(Debug, Clone, Copy, PartialEq, Eq, Structural)]
pub enum ErrorStatus {
    Permanent,
    Temporary,
    /// A failure of the service that trying again does not mend.
    Persistent,
}

/// Why the runtime refused or failed.
#[derive(Debug, PartialEq, Eq)]
pub enum RuntimeError {
    InvalidConfig { message: String },
    InvalidRaftGroup { raft_group_id: RaftGroupId, raft_group_count: u32 },
    SnapshotPlacementMismatch { expected: ShardPlacement, actual: ShardPlacement },
    EmptyAppend,
    ColdStoreConfig { message: String },
    StaticMembershipConfig { message: String },
    ColdStoreIo { message: String },
    LiveReadBackpressure { core_id: CoreId, current_waiters: u64, limit: u64 },
    GroupNotHosted { core_id: CoreId, raft_group_id: RaftGroupId },
    GroupEngine { core_id: CoreId, raft_group_id: RaftGroupId, error: GroupEngineError },
    MailboxClosed { core_id: CoreId },
    ResponseDropped { core_id: CoreId },
    SpawnCoreThread { core_id: CoreId, message: String },
}

/// Whether two errors say the same.
pub open spec fn alike(a: RuntimeError, b: RuntimeError) -> bool {
    match (a, b) {
        (
            RuntimeError::GroupEngine { core_id: c, raft_group_id: g, error: a },
            RuntimeError::GroupEngine { core_id: d, raft_group_id: h, error: b },
        ) => c == d && g == h && errors::alike(a, b),
        (a, b) => a == b,
    }
}

impl Clone for RuntimeError {
    fn clone(&self) -> (r: Self)
        ensures
            alike(r, *self),
    {
        match self {
            RuntimeError::InvalidConfig { message } => RuntimeError::InvalidConfig {
                message: message.clone(),
            },
            RuntimeError::InvalidRaftGroup { raft_group_id, raft_group_count } =>
                RuntimeError::InvalidRaftGroup {
                    raft_group_id: *raft_group_id,
                    raft_group_count: *raft_group_count,
                },
            RuntimeError::SnapshotPlacementMismatch { expected, actual } =>
                RuntimeError::SnapshotPlacementMismatch { expected: *expected, actual: *actual },
            RuntimeError::EmptyAppend => RuntimeError::EmptyAppend,
            RuntimeError::ColdStoreConfig { message } => RuntimeError::ColdStoreConfig {
                message: message.clone(),
            },
            RuntimeError::StaticMembershipConfig { message } =>
                RuntimeError::StaticMembershipConfig { message: message.clone() },
            RuntimeError::ColdStoreIo { message } => RuntimeError::ColdStoreIo {
                message: message.clone(),
            },
            RuntimeError::LiveReadBackpressure { core_id, current_waiters, limit } =>
                RuntimeError::LiveReadBackpressure {
                    core_id: *core_id,
                    current_waiters: *current_waiters,
                    limit: *limit,
                },
            RuntimeError::GroupNotHosted { core_id, raft_group_id } =>
                RuntimeError::GroupNotHosted { core_id: *core_id, raft_group_id: *raft_group_id },
            RuntimeError::GroupEngine { core_id, raft_group_id, error } =>
                RuntimeError::GroupEngine {
                    core_id: *core_id,
                    raft_group_id: *raft_group_id,
                    error: error.clone(),
                },
            RuntimeError::MailboxClosed { core_id } => RuntimeError::MailboxClosed {
                core_id: *core_id,
            },
            RuntimeError::ResponseDropped { core_id } => RuntimeError::ResponseDropped {
                core_id: *core_id,
            },
            RuntimeError::SpawnCoreThread { core_id, message } => RuntimeError::SpawnCoreThread {
                core_id: *core_id,
                message: message.clone(),
            },
        }
    }
}

/// The words of an error.
pub open spec fn runtime_error_text(error: RuntimeError) -> Seq<char> {
    match error {
        RuntimeError::InvalidConfig { message } => "invalid shard runtime config: "@ + message@,
        RuntimeError::InvalidRaftGroup { raft_group_id, raft_group_count } => "raft group "@
            + text::decimal(raft_group_id.0 as nat) + " is outside configured range 0.."@
            + text::decimal(raft_group_count as nat),
        RuntimeError::SnapshotPlacementMismatch { expected, actual } =>
            "snapshot placement for raft group "@ + text::decimal(actual.raft_group_id.0 as nat)
            + " is core "@ + text::decimal(actual.core_id.0 as nat) + ", expected core "@
            + text::decimal(expected.core_id.0 as nat),
        RuntimeError::EmptyAppend => "append payload must be non-empty"@,
        RuntimeError::ColdStoreConfig { message } => "invalid cold store config: "@ + message@,
        RuntimeError::StaticMembershipConfig { message } =>
            "invalid static Raft membership config: "@ + message@,
        RuntimeError::ColdStoreIo { message } => "cold store IO error: "@ + message@,
        RuntimeError::LiveReadBackpressure { core_id, current_waiters, limit } => "core "@
            + text::decimal(core_id.0 as nat) + " live read waiters at "@ + text::decimal(
            current_waiters as nat,
        ) + " would exceed limit "@ + text::decimal(limit as nat),
        RuntimeError::GroupNotHosted { core_id, raft_group_id } => "core "@ + text::decimal(
            core_id.0 as nat,
        ) + " does not host raft group "@ + text::decimal(raft_group_id.0 as nat),
        RuntimeError::GroupEngine { core_id, raft_group_id, error } => "core "@ + text::decimal(
            core_id.0 as nat,
        ) + " raft group "@ + text::decimal(raft_group_id.0 as nat) + " operation failed: "@
            + errors::engine_error_text(error),
        RuntimeError::MailboxClosed { core_id } => "core "@ + text::decimal(core_id.0 as nat)
            + " mailbox is closed"@,
        RuntimeError::ResponseDropped { core_id } => "core "@ + text::decimal(core_id.0 as nat)
            + " dropped append response"@,
        RuntimeError::SpawnCoreThread { core_id, message } => "failed to spawn core "@
            + text::decimal(core_id.0 as nat) + " thread: "@ + message@,
    }
}

/// What can be hoped for after an error.
pub open spec fn status_of(error: RuntimeError) -> ErrorStatus {
    match error {
        RuntimeError::LiveReadBackpressure { .. } => ErrorStatus::Temporary,
        RuntimeError::GroupNotHosted { .. } => ErrorStatus::Temporary,
        RuntimeError::GroupEngine { error, .. } => match error {
            GroupEngineError::ForwardToLeader { .. } => ErrorStatus::Temporary,
            GroupEngineError::Stream(_) => ErrorStatus::Permanent,
            GroupEngineError::Infra(_) => if error.spec_is_backpressure() {
                ErrorStatus::Temporary
            } else {
                ErrorStatus::Persistent
            },
        },
        _ => ErrorStatus::Permanent,
    }
}

impl RuntimeError {
    /// An engine's error, with the place where it came up.
    pub fn group_engine(placement: ShardPlacement, err: GroupEngineError) -> (r: Self)
        ensures
            r == (RuntimeError::GroupEngine {
                core_id: placement.core_id,
                raft_group_id: placement.raft_group_id,
                error: err,
            }),
    {
        RuntimeError::GroupEngine {
            core_id: placement.core_id,
            raft_group_id: placement.raft_group_id,
            error: err,
        }
    }

    pub fn message(&self) -> (r: String)
        ensures
            r@ == runtime_error_text(*self),
    {
        match self {
            RuntimeError::InvalidConfig { message } => {
                let mut text = "invalid shard runtime config: ".to_owned();
                text.append(message.as_str());
                text
            },
            RuntimeError::InvalidRaftGroup { raft_group_id, raft_group_count } => {
                let mut text = "raft group ".to_owned();
                text.append(decimal_text(raft_group_id.0 as u128).as_str());
                text.append(" is outside configured range 0..");
                text.append(decimal_text(*raft_group_count as u128).as_str());
                text
            },
            RuntimeError::SnapshotPlacementMismatch { expected, actual } => {
                let mut text = "snapshot placement for raft group ".to_owned();
                text.append(decimal_text(actual.raft_group_id.0 as u128).as_str());
                text.append(" is core ");
                text.append(decimal_text(actual.core_id.0 as u128).as_str());
                text.append(", expected core ");
                text.append(decimal_text(expected.core_id.0 as u128).as_str());
                text
            },
            RuntimeError::EmptyAppend => "append payload must be non-empty".to_owned(),
            RuntimeError::ColdStoreConfig { message } => {
                let mut text = "invalid cold store config: ".to_owned();
                text.append(message.as_str());
                text
            },
            RuntimeError::StaticMembershipConfig { message } => {
                let mut text = "invalid static Raft membership config: ".to_owned();
                text.append(message.as_str());
                text
            },
            RuntimeError::ColdStoreIo { message } => {
                let mut text = "cold store IO error: ".to_owned();
                text.append(message.as_str());
                text
            },
            RuntimeError::LiveReadBackpressure { core_id, current_waiters, limit } => {
                let mut text = "core ".to_owned();
                text.append(decimal_text(core_id.0 as u128).as_str());
                text.append(" live read waiters at ");
                text.append(decimal_text(*current_waiters as u128).as_str());
                text.append(" would exceed limit ");
                text.append(decimal_text(*limit as u128).as_str());
                text
            },
            RuntimeError::GroupNotHosted { core_id, raft_group_id } => {
                let mut text = "core ".to_owned();
                text.append(decimal_text(core_id.0 as u128).as_str());
                text.append(" does not host raft group ");
                text.append(decimal_text(raft_group_id.0 as u128).as_str());
                text
            },
            RuntimeError::GroupEngine { core_id, raft_group_id, error } => {
                let mut text = "core ".to_owned();
                text.append(decimal_text(core_id.0 as u128).as_str());
                text.append(" raft group ");
                text.append(decimal_text(raft_group_id.0 as u128).as_str());
                text.append(" operation failed: ");
                text.append(error.message().as_str());
                text
            },
            RuntimeError::MailboxClosed { core_id } => {
                let mut text = "core ".to_owned();
                text.append(decimal_text(core_id.0 as u128).as_str());
                text.append(" mailbox is closed");
                text
            },
            RuntimeError::ResponseDropped { core_id } => {
                let mut text = "core ".to_owned();
                text.append(decimal_text(core_id.0 as u128).as_str());
                text.append(" dropped append response");
                text
            },
            RuntimeError::SpawnCoreThread { core_id, message } => {
                let mut text = "failed to spawn core ".to_owned();
                text.append(decimal_text(core_id.0 as u128).as_str());
                text.append(" thread: ");
                text.append(message.as_str());
                text
            },
        }
    }

    pub fn stream_error_code(&self) -> (r: Option<StreamErrorCode>)
        ensures
            r == match *self {
                RuntimeError::GroupEngine { error: GroupEngineError::Stream(error), .. } => Some(
                    error.code,
                ),
                _ => None,
            },
    {
        match self {
            RuntimeError::GroupEngine { error, .. } => error.code(),
            _ => None,
        }
    }

    pub fn stream_next_offset(&self) -> (r: Option<u64>)
        ensures
            r == match *self {
                RuntimeError::GroupEngine { error: GroupEngineError::Stream(error), .. } =>
                    error.next_offset,
                _ => None,
            },
    {
        match self {
            RuntimeError::GroupEngine { error, .. } => error.next_offset(),
            _ => None,
        }
    }

    pub fn stream_error_context(&self) -> (r: &[StreamErrorContext])
        ensures
            r@ == match *self {
                RuntimeError::GroupEngine { error: GroupEngineError::Stream(error), .. } =>
                    error.context@,
                _ => Seq::<StreamErrorContext>::empty(),
            },
    {
        match self {
            RuntimeError::GroupEngine { error, .. } => error.context(),
            _ => {
                let none: &[StreamErrorContext] = &[];
                assert(none@ =~= Seq::<StreamErrorContext>::empty());
                none
            },
        }
    }

    pub fn leader_hint(&self) -> (r: Option<&GroupLeaderHint>)
        ensures
            match *self {
                RuntimeError::GroupEngine {
                    error: GroupEngineError::ForwardToLeader { leader_hint, .. },
                    ..
                } => r is Some && *r->0 == leader_hint,
                _ => r is None,
            },
    {
        match self {
            RuntimeError::GroupEngine { error, .. } => error.leader_hint(),
            _ => None,
        }
    }

    pub fn status(&self) -> (r: ErrorStatus)
        ensures
            r == status_of(*self),
            r == ErrorStatus::Temporary <==> match *self {
                RuntimeError::LiveReadBackpressure { .. } => true,
                RuntimeError::GroupNotHosted { .. } => true,
                RuntimeError::GroupEngine { error, .. } => match error {
                    GroupEngineError::ForwardToLeader { .. } => true,
                    GroupEngineError::Infra(error) => error is ColdBackpressure
                        || error is RaftUncommittedBackpressure,
                    GroupEngineError::Stream(_) => false,
                },
                _ => false,
            },
            r == ErrorStatus::Persistent <==> (*self matches RuntimeError::GroupEngine {
                error: GroupEngineError::Infra(error),
                ..
            } && !(error is ColdBackpressure || error is RaftUncommittedBackpressure)),
    {
        match self {
            RuntimeError::LiveReadBackpressure { .. } => ErrorStatus::Temporary,
            RuntimeError::GroupNotHosted { .. } => ErrorStatus::Temporary,
            RuntimeError::GroupEngine { error, .. } => {
                if error.leader_hint().is_some() || error.is_backpressure() {
                    ErrorStatus::Temporary
                } else if error.code().is_some() {
                    ErrorStatus::Permanent
                } else {
                    ErrorStatus::Persistent
                }
            },
            _ => ErrorStatus::Permanent,
        }
    }
}

} // verus!
