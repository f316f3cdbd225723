//! Replication: the types of a replicated group, and its log.

pub mod log_store;

use std::collections::{BTreeMap, BTreeSet};
use vstd::prelude::*;
use crate::command::GroupWriteCommand;
use crate::engine::errors::{GroupEngineError, GroupInfraError};
use crate::engine::responses::GroupWriteResponse;
use crate::ids::RaftGroupId;

verus! {

/// Which kind of log a type of group keeps.
pub trait RaftTypeConfig {
    /// What its entries carry.
    type Data;
}

/// Groups that keep streams.
#[derive(Debug, Clone, Copy, PartialEq, Eq, Structural)]
pub struct UrsulaRaftTypeConfig;

/// The group that knows the nodes.
#[derive(Debug, Clone, Copy, PartialEq, Eq, Structural)]
pub struct MetaRaftTypeConfig;

/// A command to the group that knows the nodes.
#[derive(Debug, Clone, PartialEq, Eq)]
pub enum ControlCommand {
    RegisterNode {
        node_id: u64,
        client_url: String,
        cluster_url: String,
        labels: Vec<(String, String)>,
        now_ms: u64,
    },
}

impl RaftTypeConfig for UrsulaRaftTypeConfig {
    type Data = GroupWriteCommand;
}

impl RaftTypeConfig for MetaRaftTypeConfig {
    type Data = ControlCommand;
}

/// What a replicated entry has led to; entries of replication itself lead to
/// nothing.
#[derive(Debug, PartialEq, Eq)]
pub enum RaftGroupResponse {
    Blank,
    Membership,
    Write(Result<GroupWriteResponse, GroupEngineError>),
}

/// How far something has come in a log.
#[derive(Debug, Clone, Copy, PartialEq, Eq, Structural)]
pub struct RaftLogProgressSnapshot {
    pub term: u64,
    pub index: u64,
}

/// How a replicated group stands.
#[derive(Debug, Clone, PartialEq, Eq)]
pub struct RaftGroupMetricsSnapshot {
    pub raft_group_id: u32,
    pub node_id: u64,
    pub current_term: u64,
    pub current_leader: Option<u64>,
    pub last_log_index: Option<u64>,
    pub committed: Option<RaftLogProgressSnapshot>,
    pub last_applied: Option<RaftLogProgressSnapshot>,
    pub snapshot: Option<RaftLogProgressSnapshot>,
    pub purged: Option<RaftLogProgressSnapshot>,
    pub voter_ids: Vec<u64>,
    pub learner_ids: Vec<u64>,
}

/// Who votes in which group, where that is settled beforehand.
#[derive(Debug, Clone, Default)]
pub struct StaticGrpcRaftMembershipConfig {
    pub initialize_membership_per_group: bool,
    pub per_group_voters: BTreeMap<RaftGroupId, BTreeSet<u64>>,
}

/// A field that a message must have.
pub fn required<T>(value: Option<T>, field: &str) -> (r: Result<T, GroupEngineError>)
    ensures
        match value {
            Some(value) => r == Ok::<T, GroupEngineError>(value),
            None => r is Err && (r->Err_0 matches GroupEngineError::Infra(
                GroupInfraError::ProtoDecode { field: name },
            ) && name@ == field@),
        },
{
    match value {
        Some(value) => Ok(value),
        None => Err(GroupEngineError::Infra(GroupInfraError::proto_decode(field))),
    }
}

} // verus!
