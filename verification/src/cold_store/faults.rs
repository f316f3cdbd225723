//! Observed events and injected faults of the cold tier.

use vstd::prelude::*;
use crate::cold_store::{ColdStoreError, ColdStoreOperation};
use crate::duration::{duration_ms, Duration};
use crate::ids::BucketStreamId;

verus! {

/// What a fault policy is asked about.
#[derive(Debug, Clone, PartialEq, Eq)]
pub struct ColdStoreFaultContext {
    pub operation: ColdStoreOperation,
    pub stream_id: Option<BucketStreamId>,
    pub path: String,
    pub payload_len: Option<usize>,
    pub read_start_offset: Option<u64>,
    pub len: Option<usize>,
    pub object_start: Option<u64>,
    pub object_end: Option<u64>,
    pub cached: Option<bool>,
}

/// An injected failure.
#[derive(Debug, Clone, PartialEq, Eq)]
pub struct ColdStoreFault {
    pub message: String,
}

impl ColdStoreFault {
    pub fn new(message: &str) -> (r: Self)
        ensures
            r.message@ == message@,
    {
        ColdStoreFault { message: message.to_owned() }
    }
}

/// What a fault policy asks for.
#[derive(Debug, Clone, PartialEq, Eq)]
pub struct ColdStoreFaultEffect {
    pub delay: Option<Duration>,
    pub error: Option<ColdStoreFault>,
    pub truncate_read_to: Option<usize>,
}

impl ColdStoreFaultEffect {
    /// Wait first.
    pub fn delay(duration: Duration) -> (r: Self)
        ensures
            r.delay == Some(duration),
            r.error is None,
            r.truncate_read_to is None,
    {
        ColdStoreFaultEffect { delay: Some(duration), error: None, truncate_read_to: None }
    }

    /// Fail.
    pub fn fail(message: &str) -> (r: Self)
        ensures
            r.delay is None,
            r.error is Some && r.error->0.message@ == message@,
            r.truncate_read_to is None,
    {
        ColdStoreFaultEffect {
            delay: None,
            error: Some(ColdStoreFault::new(message)),
            truncate_read_to: None,
        }
    }

    /// Wait, then fail.
    pub fn delay_then_fail(duration: Duration, message: &str) -> (r: Self)
        ensures
            r.delay == Some(duration),
            r.error is Some && r.error->0.message@ == message@,
            r.truncate_read_to is None,
    {
        ColdStoreFaultEffect {
            delay: Some(duration),
            error: Some(ColdStoreFault::new(message)),
            truncate_read_to: None,
        }
    }

    /// Return no more than `len` bytes of a read.
    pub fn truncate_read_to(len: usize) -> (r: Self)
        ensures
            r.delay is None,
            r.error is None,
            r.truncate_read_to == Some(len),
    {
        ColdStoreFaultEffect { delay: None, error: None, truncate_read_to: Some(len) }
    }
}

/// What an observer of the cold tier is told.
#[derive(Debug, Clone, PartialEq, Eq)]
#[allow(inconsistent_fields)]
pub enum ColdStoreEvent {
    WriteChunkBegin { path: String, payload_len: usize },
    WriteChunkComplete { path: String, object_size: u64 },
    DeleteChunkBegin { path: String },
    DeleteChunkComplete { path: String },
    RemoveAllBegin { path: String },
    RemoveAllComplete { path: String },
    ReadObjectRangeBegin {
        stream_id: Option<BucketStreamId>,
        path: String,
        read_start_offset: u64,
        len: usize,
        object_start: u64,
        object_end: u64,
        cached: bool,
    },
    ReadObjectRangeComplete {
        stream_id: Option<BucketStreamId>,
        path: String,
        read_start_offset: u64,
        len: usize,
        returned_len: usize,
        cached: bool,
    },
    FaultInjected {
        operation: ColdStoreOperation,
        stream_id: Option<BucketStreamId>,
        path: String,
        message: String,
    },
    DelayInjected {
        operation: ColdStoreOperation,
        stream_id: Option<BucketStreamId>,
        path: String,
        delay_ms: u64,
    },
    TruncateInjected {
        stream_id: Option<BucketStreamId>,
        path: String,
        requested_len: usize,
        returned_len: usize,
    },
}

/// A copy of an optional stream identity.
pub fn copy_stream(stream_id: &Option<BucketStreamId>) -> (r: Option<BucketStreamId>)
    ensures
        r == *stream_id,
{
    match stream_id {
        Some(stream_id) => Some(stream_id.clone()),
        None => None,
    }
}

/// What applying a fault effect comes to: first the event and the wait, then
/// the event and the error, or else the bound on what a read returns.
#[derive(Debug)]
pub struct AppliedFault {
    /// The wait, and the event that is sent before it.
    pub delay: Option<(Duration, ColdStoreEvent)>,
    /// The failure, and the event that is sent before it.
    pub failure: Option<(ColdStoreError, ColdStoreEvent)>,
    pub truncate_read_to: Option<usize>,
}

/// The event that announces a wait.
pub open spec fn delay_event(context: ColdStoreFaultContext, delay: Duration) -> ColdStoreEvent {
    ColdStoreEvent::DelayInjected {
        operation: context.operation,
        stream_id: context.stream_id,
        path: context.path,
        delay_ms: if delay.total_nanos() / 1_000_000 > u64::MAX {
            u64::MAX
        } else {
            (delay.total_nanos() / 1_000_000) as u64
        },
    }
}

/// The event that announces a failure.
pub open spec fn fault_event(
    context: ColdStoreFaultContext,
    fault: ColdStoreFault,
) -> ColdStoreEvent {
    ColdStoreEvent::FaultInjected {
        operation: context.operation,
        stream_id: context.stream_id,
        path: context.path,
        message: fault.message,
    }
}

/// The error of an injected failure.
pub open spec fn fault_error(
    context: ColdStoreFaultContext,
    fault: ColdStoreFault,
) -> ColdStoreError {
    ColdStoreError::FaultInjected {
        operation: context.operation,
        path: context.path,
        message: fault.message,
    }
}

/// What the answer of a fault policy comes to. No answer changes nothing, and a
/// failure leaves no bound on what a read returns.
pub fn maybe_apply_fault_effect(
    context: &ColdStoreFaultContext,
    effect: Option<ColdStoreFaultEffect>,
) -> (r: AppliedFault)
    requires
        effect matches Some(effect) ==> (effect.delay matches Some(delay) ==> delay.wf()),
    ensures
        match effect {
            None => r.delay is None && r.failure is None && r.truncate_read_to is None,
            Some(effect) => {
                &&& r.delay == match effect.delay {
                    Some(delay) => Some((delay, delay_event(*context, delay))),
                    None => None,
                }
                &&& r.failure == match effect.error {
                    Some(fault) => Some((fault_error(*context, fault), fault_event(*context, fault))),
                    None => None,
                }
                &&& r.truncate_read_to == if effect.error is Some {
                    None
                } else {
                    effect.truncate_read_to
                }
            },
        },
        r.delay matches Some((delay, event)) ==> (event matches ColdStoreEvent::DelayInjected {
            operation,
            stream_id,
            path,
            delay_ms,
        } && {
            &&& operation == context.operation
            &&& stream_id == context.stream_id
            &&& path == context.path
            &&& delay_ms * 1_000_000 <= delay.total_nanos()
            &&& delay.total_nanos() < (delay_ms + 1) * 1_000_000 || delay_ms == u64::MAX
        }),
        r.failure matches Some((error, event)) ==> {
            &&& error matches ColdStoreError::FaultInjected { operation, path, message }
            &&& event matches ColdStoreEvent::FaultInjected {
                operation: told_operation,
                stream_id,
                path: told_path,
                message: told_message,
            }
            &&& operation == context.operation && told_operation == context.operation
            &&& path == context.path && told_path == context.path
            &&& stream_id == context.stream_id
            &&& told_message == message
            &&& effect is Some && effect->0.error is Some && effect->0.error->0.message == message
        },
{
    let effect = match effect {
        Some(effect) => effect,
        None => {
            return AppliedFault { delay: None, failure: None, truncate_read_to: None };
        },
    };
    let delay = match effect.delay {
        Some(delay) => {
            let event = ColdStoreEvent::DelayInjected {
                operation: context.operation,
                stream_id: copy_stream(&context.stream_id),
                path: context.path.clone(),
                delay_ms: duration_ms(delay),
            };
            Some((delay, event))
        },
        None => None,
    };
    match effect.error {
        Some(fault) => {
            let event = ColdStoreEvent::FaultInjected {
                operation: context.operation,
                stream_id: copy_stream(&context.stream_id),
                path: context.path.clone(),
                message: fault.message.clone(),
            };
            let error = ColdStoreError::FaultInjected {
                operation: context.operation,
                path: context.path.clone(),
                message: fault.message,
            };
            AppliedFault { delay, failure: Some((error, event)), truncate_read_to: None }
        },
        None => AppliedFault { delay, failure: None, truncate_read_to: effect.truncate_read_to },
    }
}

} // verus!
