//! Errors of a group engine.

use vstd::prelude::*;
use crate::ids::BucketStreamId;
use crate::stream;
use crate::stream::{StreamErrorCode, StreamErrorContext};
use crate::text;
use crate::text::decimal_text;

verus! {

/// Where the leader of a group is believed to be.
#[derive(Debug, PartialEq, Eq)]
pub struct GroupLeaderHint {
    pub node_id: Option<u64>,
    pub address: Option<String>,
}

/// A refusal by the stream layer.
#[derive(Debug, PartialEq, Eq)]
pub struct StreamEngineError {
    pub message: String,
    pub code: StreamErrorCode,
    pub next_offset: Option<u64>,
    pub context: Vec<StreamErrorContext>,
}

/// A failure that is not the stream layer's refusal.
#[derive(Debug, PartialEq, Eq)]
pub enum GroupInfraError {
    Internal { message: String },
    ProtoDecode { field: String },
    ColdBackpressure {
        stream_id: BucketStreamId,
        before_group_hot_bytes: u64,
        after_group_hot_bytes: u64,
        limit: u64,
    },
    RaftUncommittedBackpressure { current: u64, incoming: u64, limit: u64 },
}

/// Why a group engine failed.
#[derive(Debug, PartialEq, Eq)]
pub enum GroupEngineError {
    Stream(StreamEngineError),
    Infra(GroupInfraError),
    ForwardToLeader { message: String, leader_hint: GroupLeaderHint },
}

impl Clone for GroupLeaderHint {
    fn clone(&self) -> (r: Self)
        ensures
            r == *self,
    {
        let address = match &self.address {
            Some(address) => Some(address.clone()),
            None => None,
        };
        GroupLeaderHint { node_id: self.node_id, address }
    }
}

impl Clone for GroupInfraError {
    fn clone(&self) -> (r: Self)
        ensures
            r == *self,
    {
        match self {
            GroupInfraError::Internal { message } => GroupInfraError::Internal {
                message: message.clone(),
            },
            GroupInfraError::ProtoDecode { field } => GroupInfraError::ProtoDecode {
                field: field.clone(),
            },
            GroupInfraError::ColdBackpressure {
                stream_id,
                before_group_hot_bytes,
                after_group_hot_bytes,
                limit,
            } => GroupInfraError::ColdBackpressure {
                stream_id: stream_id.clone(),
                before_group_hot_bytes: *before_group_hot_bytes,
                after_group_hot_bytes: *after_group_hot_bytes,
                limit: *limit,
            },
            GroupInfraError::RaftUncommittedBackpressure { current, incoming, limit } =>
                GroupInfraError::RaftUncommittedBackpressure {
                    current: *current,
                    incoming: *incoming,
                    limit: *limit,
                },
        }
    }
}

/// Whether two errors say the same.
pub open spec fn alike(a: GroupEngineError, b: GroupEngineError) -> bool {
    match (a, b) {
        (GroupEngineError::Stream(a), GroupEngineError::Stream(b)) => a.message == b.message
            && a.code == b.code && a.next_offset == b.next_offset && a.context@ == b.context@,
        (a, b) => a == b,
    }
}

impl Clone for GroupEngineError {
    fn clone(&self) -> (r: Self)
        ensures
            alike(r, *self),
    {
        match self {
            GroupEngineError::Stream(error) => GroupEngineError::Stream(
                StreamEngineError {
                    message: error.message.clone(),
                    code: error.code.clone(),
                    next_offset: error.next_offset,
                    context: error.context.clone(),
                },
            ),
            GroupEngineError::Infra(error) => GroupEngineError::Infra(error.clone()),
            GroupEngineError::ForwardToLeader { message, leader_hint } =>
                GroupEngineError::ForwardToLeader {
                    message: message.clone(),
                    leader_hint: leader_hint.clone(),
                },
        }
    }
}

/// The words of a failure.
pub open spec fn infra_text(error: GroupInfraError) -> Seq<char> {
    match error {
        GroupInfraError::Internal { message } => message@,
        GroupInfraError::ProtoDecode { field } => "ProtoDecode: protobuf raft payload missing "@
            + field@,
        GroupInfraError::ColdBackpressure {
            stream_id,
            before_group_hot_bytes,
            after_group_hot_bytes,
            limit,
        } => "ColdBackpressure: stream '"@ + stream_id@.text()
            + "' would raise group hot bytes from "@ + text::decimal(before_group_hot_bytes as nat)
            + " to "@ + text::decimal(after_group_hot_bytes as nat) + ", above limit "@
            + text::decimal(limit as nat),
        GroupInfraError::RaftUncommittedBackpressure { current, incoming, limit } =>
            "RaftUncommittedBackpressure: group uncommitted bytes "@ + text::decimal(current as nat)
            + " plus incoming "@ + text::decimal(incoming as nat) + " would exceed limit "@
            + text::decimal(limit as nat),
    }
}

/// The words of an error.
pub open spec fn engine_error_text(error: GroupEngineError) -> Seq<char> {
    match error {
        GroupEngineError::Stream(error) => error.message@,
        GroupEngineError::Infra(error) => infra_text(error),
        GroupEngineError::ForwardToLeader { message, .. } => message@,
    }
}

/// Whether an error is a refusal with these words and nothing more about it.
pub open spec fn is_stream_error(
    error: GroupEngineError,
    code: StreamErrorCode,
    message: Seq<char>,
    next_offset: Option<u64>,
) -> bool {
    error matches GroupEngineError::Stream(error) && error.code == code && error.message@
        == stream::code_name(code) + ": "@ + message && error.next_offset == next_offset
        && error.context@.len() == 0
}

/// Whether an error is an internal failure with these words.
pub open spec fn is_internal_error(error: GroupEngineError, message: Seq<char>) -> bool {
    error matches GroupEngineError::Infra(GroupInfraError::Internal { message: words })
        && words@ == message
}

impl GroupInfraError {
    pub fn internal(message: &str) -> (r: Self)
        ensures
            r matches GroupInfraError::Internal { message: words } && words@ == message@,
    {
        GroupInfraError::Internal { message: message.to_owned() }
    }

    pub fn proto_decode(field: &str) -> (r: Self)
        ensures
            r matches GroupInfraError::ProtoDecode { field: name } && name@ == field@,
    {
        GroupInfraError::ProtoDecode { field: field.to_owned() }
    }

    pub fn cold_backpressure(
        stream_id: BucketStreamId,
        before_group_hot_bytes: u64,
        after_group_hot_bytes: u64,
        limit: u64,
    ) -> (r: Self)
        ensures
            r == (GroupInfraError::ColdBackpressure {
                stream_id,
                before_group_hot_bytes,
                after_group_hot_bytes,
                limit,
            }),
    {
        GroupInfraError::ColdBackpressure {
            stream_id,
            before_group_hot_bytes,
            after_group_hot_bytes,
            limit,
        }
    }

    pub fn raft_uncommitted_backpressure(current: u64, incoming: u64, limit: u64) -> (r: Self)
        ensures
            r == (GroupInfraError::RaftUncommittedBackpressure { current, incoming, limit }),
    {
        GroupInfraError::RaftUncommittedBackpressure { current, incoming, limit }
    }

    pub fn message(&self) -> (r: String)
        ensures
            r@ == infra_text(*self),
    {
        match self {
            GroupInfraError::Internal { message } => message.clone(),
            GroupInfraError::ProtoDecode { field } => {
                let mut text = "ProtoDecode: protobuf raft payload missing ".to_owned();
                text.append(field.as_str());
                text
            },
            GroupInfraError::ColdBackpressure {
                stream_id,
                before_group_hot_bytes,
                after_group_hot_bytes,
                limit,
            } => {
                let mut text = "ColdBackpressure: stream '".to_owned();
                text.append(stream_id.text().as_str());
                text.append("' would raise group hot bytes from ");
                text.append(decimal_text(*before_group_hot_bytes as u128).as_str());
                text.append(" to ");
                text.append(decimal_text(*after_group_hot_bytes as u128).as_str());
                text.append(", above limit ");
                text.append(decimal_text(*limit as u128).as_str());
                text
            },
            GroupInfraError::RaftUncommittedBackpressure { current, incoming, limit } => {
                let mut text = "RaftUncommittedBackpressure: group uncommitted bytes ".to_owned();
                text.append(decimal_text(*current as u128).as_str());
                text.append(" plus incoming ");
                text.append(decimal_text(*incoming as u128).as_str());
                text.append(" would exceed limit ");
                text.append(decimal_text(*limit as u128).as_str());
                text
            },
        }
    }

    pub fn is_cold_backpressure(&self) -> (r: bool)
        ensures
            r == (*self is ColdBackpressure),
    {
        match self {
            GroupInfraError::ColdBackpressure { .. } => true,
            _ => false,
        }
    }

    pub fn is_backpressure(&self) -> (r: bool)
        ensures
            r == (*self is ColdBackpressure || *self is RaftUncommittedBackpressure),
    {
        match self {
            GroupInfraError::ColdBackpressure { .. } => true,
            GroupInfraError::RaftUncommittedBackpressure { .. } => true,
            _ => false,
        }
    }
}

impl GroupEngineError {
    /// An internal failure.
    pub fn new(message: &str) -> (r: Self)
        ensures
            is_internal_error(r, message@),
    {
        GroupEngineError::Infra(GroupInfraError::internal(message))
    }

    pub fn cold_backpressure(
        stream_id: BucketStreamId,
        before_group_hot_bytes: u64,
        after_group_hot_bytes: u64,
        limit: u64,
    ) -> (r: Self)
        ensures
            r == GroupEngineError::Infra(
                GroupInfraError::ColdBackpressure {
                    stream_id,
                    before_group_hot_bytes,
                    after_group_hot_bytes,
                    limit,
                },
            ),
    {
        GroupEngineError::Infra(
            GroupInfraError::cold_backpressure(
                stream_id,
                before_group_hot_bytes,
                after_group_hot_bytes,
                limit,
            ),
        )
    }

    pub fn raft_uncommitted_backpressure(current: u64, incoming: u64, limit: u64) -> (r: Self)
        ensures
            r == GroupEngineError::Infra(
                GroupInfraError::RaftUncommittedBackpressure { current, incoming, limit },
            ),
    {
        GroupEngineError::Infra(
            GroupInfraError::raft_uncommitted_backpressure(current, incoming, limit),
        )
    }

    /// A refusal.
    pub fn stream(code: StreamErrorCode, message: &str) -> (r: Self)
        ensures
            is_stream_error(r, code, message@, None),
    {
        GroupEngineError::stream_with_next_offset(code, message, None)
    }

    /// A refusal that says where the stream goes on.
    pub fn stream_with_next_offset(
        code: StreamErrorCode,
        message: &str,
        next_offset: Option<u64>,
    ) -> (r: Self)
        ensures
            is_stream_error(r, code, message@, next_offset),
    {
        GroupEngineError::stream_with_context(code, message, next_offset, Vec::new())
    }

    /// A refusal and more about it. The words begin with the name of the code.
    pub fn stream_with_context(
        code: StreamErrorCode,
        message: &str,
        next_offset: Option<u64>,
        context: Vec<StreamErrorContext>,
    ) -> (r: Self)
        ensures
            r matches GroupEngineError::Stream(error) && error.code == code && error.message@
                == stream::code_name(code) + ": "@ + message@ && error.next_offset == next_offset
                && error.context == context,
    {
        let mut words = code.name();
        words.append(": ");
        words.append(message);
        GroupEngineError::Stream(
            StreamEngineError { message: words, code, next_offset, context },
        )
    }

    /// A refusal as another replica worded it.
    pub fn stream_from_replicated(
        message: &str,
        code: StreamErrorCode,
        next_offset: Option<u64>,
        context: Vec<StreamErrorContext>,
    ) -> (r: Self)
        ensures
            r matches GroupEngineError::Stream(error) && error.code == code && error.message@
                == message@ && error.next_offset == next_offset && error.context == context,
    {
        GroupEngineError::Stream(
            StreamEngineError { message: message.to_owned(), code, next_offset, context },
        )
    }

    /// A request that belongs to the leader.
    pub fn forward_to_leader(
        message: &str,
        node_id: Option<u64>,
        address: Option<String>,
    ) -> (r: Self)
        ensures
            r matches GroupEngineError::ForwardToLeader { message: words, leader_hint } && words@
                == message@ && leader_hint == (GroupLeaderHint { node_id, address }),
    {
        GroupEngineError::ForwardToLeader {
            message: message.to_owned(),
            leader_hint: GroupLeaderHint { node_id, address },
        }
    }

    pub fn message(&self) -> (r: String)
        ensures
            r@ == engine_error_text(*self),
    {
        match self {
            GroupEngineError::Stream(error) => error.message.clone(),
            GroupEngineError::Infra(error) => error.message(),
            GroupEngineError::ForwardToLeader { message, .. } => message.clone(),
        }
    }

    pub fn code(&self) -> (r: Option<StreamErrorCode>)
        ensures
            r == match *self {
                GroupEngineError::Stream(error) => Some(error.code),
                _ => None,
            },
    {
        match self {
            GroupEngineError::Stream(error) => Some(error.code.clone()),
            _ => None,
        }
    }

    /// The words, the code, the next offset and the context of a refusal.
    pub fn stream_parts(&self) -> (r: Option<
        (&String, &StreamErrorCode, Option<u64>, &Vec<StreamErrorContext>),
    >)
        ensures
            match *self {
                GroupEngineError::Stream(error) => r matches Some((message, code, next_offset, context))
                    && *message == error.message && *code == error.code && next_offset
                    == error.next_offset && *context == error.context,
                _ => r is None,
            },
    {
        match self {
            GroupEngineError::Stream(error) => Some(
                (&error.message, &error.code, error.next_offset, &error.context),
            ),
            _ => None,
        }
    }

    pub fn next_offset(&self) -> (r: Option<u64>)
        ensures
            r == match *self {
                GroupEngineError::Stream(error) => error.next_offset,
                _ => None,
            },
    {
        match self {
            GroupEngineError::Stream(error) => error.next_offset,
            _ => None,
        }
    }

    /// What more is known of a refusal; nothing of other errors.
    pub fn context(&self) -> (r: &[StreamErrorContext])
        ensures
            r@ == match *self {
                GroupEngineError::Stream(error) => error.context@,
                _ => Seq::<StreamErrorContext>::empty(),
            },
    {
        match self {
            GroupEngineError::Stream(error) => error.context.as_slice(),
            _ => {
                let none: &[StreamErrorContext] = &[];
                assert(none@ =~= Seq::<StreamErrorContext>::empty());
                none
            },
        }
    }

    pub fn leader_hint(&self) -> (r: Option<&GroupLeaderHint>)
        ensures
            match *self {
                GroupEngineError::ForwardToLeader { leader_hint, .. } => r is Some && *r->0
                    == leader_hint,
                _ => r is None,
            },
    {
        match self {
            GroupEngineError::ForwardToLeader { leader_hint, .. } => Some(leader_hint),
            _ => None,
        }
    }

    pub fn infra(&self) -> (r: Option<&GroupInfraError>)
        ensures
            match *self {
                GroupEngineError::Infra(error) => r is Some && *r->0 == error,
                _ => r is None,
            },
    {
        match self {
            GroupEngineError::Infra(error) => Some(error),
            _ => None,
        }
    }

    pub open spec fn spec_is_backpressure(self) -> bool {
        self matches GroupEngineError::Infra(error) && (error is ColdBackpressure
            || error is RaftUncommittedBackpressure)
    }

    pub fn is_cold_backpressure(&self) -> (r: bool)
        ensures
            r == (*self matches GroupEngineError::Infra(error) && error is ColdBackpressure),
    {
        match self {
            GroupEngineError::Infra(error) => error.is_cold_backpressure(),
            _ => false,
        }
    }

    pub fn is_backpressure(&self) -> (r: bool)
        ensures
            r == self.spec_is_backpressure(),
    {
        match self {
            GroupEngineError::Infra(error) => error.is_backpressure(),
            _ => false,
        }
    }
}

} // verus!
