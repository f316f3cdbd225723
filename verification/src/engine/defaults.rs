//! What an engine answers to operations that it does not have.

use vstd::prelude::*;
use crate::engine::errors;
use crate::engine::errors::GroupEngineError;
use crate::ids::BucketStreamId;

verus! {

/// Operations on a stream that an engine may lack.
#[derive(Debug, Clone, Copy, PartialEq, Eq, Structural)]
pub enum OptionalOperation {
    CreateExternal,
    GetAttrs,
    UpdateAttrs,
    PublishSnapshot,
    ReadSnapshot,
    DeleteSnapshot,
    Bootstrap,
    AppendExternal,
    FlushCold,
    PlanColdFlush,
    ColdHotBacklog,
}

/// How an operation is called.
pub open spec fn operation_words(operation: OptionalOperation) -> Seq<char> {
    match operation {
        OptionalOperation::CreateExternal => "external stream create"@,
        OptionalOperation::GetAttrs => "stream attrs read"@,
        OptionalOperation::UpdateAttrs => "stream attrs update"@,
        OptionalOperation::PublishSnapshot => "snapshot publish"@,
        OptionalOperation::ReadSnapshot => "snapshot read"@,
        OptionalOperation::DeleteSnapshot => "snapshot delete"@,
        OptionalOperation::Bootstrap => "bootstrap"@,
        OptionalOperation::AppendExternal => "external append"@,
        OptionalOperation::FlushCold => "cold flush"@,
        OptionalOperation::PlanColdFlush => "cold flush planning"@,
        OptionalOperation::ColdHotBacklog => "cold hot backlog"@,
    }
}

/// The error of an engine that lacks an operation.
pub fn unsupported(operation: OptionalOperation, stream_id: &BucketStreamId) -> (r:
    GroupEngineError)
    ensures
        errors::is_internal_error(
            r,
            operation_words(operation) + " is not supported for stream '"@ + stream_id@.text()
                + "'"@,
        ),
{
    let words = match operation {
        OptionalOperation::CreateExternal => "external stream create",
        OptionalOperation::GetAttrs => "stream attrs read",
        OptionalOperation::UpdateAttrs => "stream attrs update",
        OptionalOperation::PublishSnapshot => "snapshot publish",
        OptionalOperation::ReadSnapshot => "snapshot read",
        OptionalOperation::DeleteSnapshot => "snapshot delete",
        OptionalOperation::Bootstrap => "bootstrap",
        OptionalOperation::AppendExternal => "external append",
        OptionalOperation::FlushCold => "cold flush",
        OptionalOperation::PlanColdFlush => "cold flush planning",
        OptionalOperation::ColdHotBacklog => "cold hot backlog",
    };
    let mut text = words.to_owned();
    text.append(" is not supported for stream '");
    text.append(stream_id.text().as_str());
    text.append("'");
    GroupEngineError::new(text.as_str())
}

/// The error of an engine that has no cold garbage.
pub fn unsupported_cold_gc() -> (r: GroupEngineError)
    ensures
        errors::is_internal_error(r, "cold GC ack is not supported"@),
{
    GroupEngineError::new("cold GC ack is not supported")
}

/// The error of an engine that plans no flushes.
pub fn unsupported_group_flush() -> (r: GroupEngineError)
    ensures
        errors::is_internal_error(r, "group cold flush planning is not supported"@),
{
    GroupEngineError::new("group cold flush planning is not supported")
}

/// A batch of at most `max` candidates, out of the next one only.
pub fn batch_of_next<T>(next: Option<T>, max: usize) -> (r: Vec<T>)
    ensures
        r@ == if next is Some && max > 0 {
            seq![next->0]
        } else {
            Seq::<T>::empty()
        },
{
    let mut batch: Vec<T> = Vec::new();
    if max > 0 {
        if let Some(candidate) = next {
            batch.push(candidate);
        }
    }
    batch
}

} // verus!
