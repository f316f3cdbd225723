//! Reading a byte range of an object.

use vstd::prelude::*;
use crate::cold_store::faults::{copy_stream, ColdStoreEvent, ColdStoreFaultContext};
use crate::cold_store::{ColdStoreError, ColdStoreOperation};
use crate::ids::BucketStreamId;
use crate::refs::ObjectPayloadRef;
use crate::text;
use crate::text::is_blank;

verus! {

/// The bytes of the object that answer a read: none for an empty read.
pub open spec fn read_plan(object: ObjectPayloadRef, read_start: u64, len: usize) -> Result<
    Option<(u64, u64)>,
    ColdStoreError,
> {
    let read_end = read_start + len;
    let object_start = read_start - object.start_offset;
    if len == 0 {
        Ok(None)
    } else if read_end > u64::MAX {
        Err(ColdStoreError::RangeOverflow)
    } else if read_start < object.start_offset || read_end > object.end_offset {
        Err(
            ColdStoreError::OutsideSegment {
                read_start,
                read_end: read_end as u64,
                start_offset: object.start_offset,
                end_offset: object.end_offset,
            },
        )
    } else if object_start + len > object.object_size {
        Err(
            ColdStoreError::OutsideObject {
                object_start: object_start as u64,
                object_end: (object_start + len) as u64,
                path: object.s3_path,
                object_size: object.object_size,
            },
        )
    } else {
        Ok(Some((object_start as u64, (object_start + len) as u64)))
    }
}

/// The bytes of `object` that answer a read of `len` bytes from `read_start`.
pub fn plan_object_read(object: &ObjectPayloadRef, read_start: u64, len: usize) -> (r: Result<
    Option<(u64, u64)>,
    ColdStoreError,
>)
    ensures
        r == read_plan(*object, read_start, len),
        r is Ok <==> len == 0 || {
            &&& object.start_offset <= read_start
            &&& read_start + len <= object.end_offset
            &&& read_start - object.start_offset + len <= object.object_size
        },
        r matches Ok(None) ==> len == 0,
        r matches Ok(Some((start, end))) ==> {
            &&& object.start_offset + start == read_start
            &&& end - start == len
            &&& len > 0
        },
{
    if len == 0 {
        return Ok(None);
    }
    let len: u64 = len as u64;
    let read_end: u64 = match read_start.checked_add(len) {
        Some(end) => end,
        None => {
            return Err(ColdStoreError::RangeOverflow);
        },
    };
    if read_start < object.start_offset || read_end > object.end_offset {
        return Err(
            ColdStoreError::OutsideSegment {
                read_start,
                read_end,
                start_offset: object.start_offset,
                end_offset: object.end_offset,
            },
        );
    }
    let object_start: u64 = read_start - object.start_offset;
    let object_end: u64 = object_start + len;
    if object_end > object.object_size {
        return Err(
            ColdStoreError::OutsideObject {
                object_start,
                object_end,
                path: object.s3_path.clone(),
                object_size: object.object_size,
            },
        );
    }
    Ok(Some((object_start, object_end)))
}

/// A read that is planned as a range of an object gets the bytes of the stream that
/// it asks for, wherever the object holds the stream from its start offset on. Every
/// read that stays within the segment and the object is planned so.
pub proof fn law_planned_range_holds_the_stream(
    object: ObjectPayloadRef,
    read_start: u64,
    len: usize,
    content: Seq<u8>,
    stream: Seq<u8>,
)
    requires
        content.len() == object.object_size,
        object.end_offset <= stream.len(),
        forall|i: int|
            0 <= i < content.len() && object.start_offset + i < object.end_offset
                ==> #[trigger] content[i] == stream[object.start_offset + i],
    ensures
        match read_plan(object, read_start, len) {
            Ok(Some((start, end))) => {
                &&& 0 <= start < end <= content.len()
                &&& content.subrange(start as int, end as int) == stream.subrange(
                    read_start as int,
                    read_start + len,
                )
            },
            Ok(None) => len == 0,
            Err(_) => {
                ||| read_start < object.start_offset
                ||| read_start + len > object.end_offset
                ||| read_start - object.start_offset + len > content.len()
            },
        },
{
    if let Ok(Some((start, end))) = read_plan(object, read_start, len) {
        assert(content.subrange(start as int, end as int) =~= stream.subrange(
            read_start as int,
            read_start + len,
        ));
    }
}

/// A read that is under way.
#[derive(Debug)]
pub struct ObjectRead {
    pub stream_id: Option<BucketStreamId>,
    pub path: String,
    pub read_start_offset: u64,
    pub len: usize,
    pub object_start: u64,
    pub object_end: u64,
    pub cached: bool,
}

/// Whether `read` is the read of the object that was asked for.
pub open spec fn is_read_of(
    read: ObjectRead,
    stream_id: Option<BucketStreamId>,
    object: ObjectPayloadRef,
    read_start: u64,
    len: usize,
    cached: bool,
) -> bool {
    &&& read.stream_id == stream_id
    &&& read.path == object.s3_path
    &&& read.read_start_offset == read_start
    &&& read.len == len
    &&& read_plan(object, read_start, len) == Ok::<Option<(u64, u64)>, ColdStoreError>(
        Some((read.object_start, read.object_end)),
    )
    &&& read.cached == cached
}

/// Begins a read; an empty read needs none.
pub fn begin_object_read(
    stream_id: &Option<BucketStreamId>,
    object: &ObjectPayloadRef,
    read_start: u64,
    len: usize,
    cached: bool,
) -> (r: Result<Option<ObjectRead>, ColdStoreError>)
    ensures
        match read_plan(*object, read_start, len) {
            Err(error) => r == Err::<Option<ObjectRead>, ColdStoreError>(error),
            Ok(None) => r is Ok && r->Ok_0 is None,
            Ok(Some(_)) => r is Ok && r->Ok_0 is Some && is_read_of(
                r->Ok_0->Some_0,
                *stream_id,
                *object,
                read_start,
                len,
                cached,
            ),
        },
        r matches Ok(Some(read)) ==> {
            &&& read.path == object.s3_path
            &&& object.start_offset + read.object_start == read_start
            &&& read.object_end - read.object_start == len
            &&& read.object_end <= object.object_size
            &&& read_start + len <= object.end_offset
        },
{
    match plan_object_read(object, read_start, len) {
        Err(error) => Err(error),
        Ok(None) => Ok(None),
        Ok(Some((object_start, object_end))) => Ok(
            Some(
                ObjectRead {
                    stream_id: copy_stream(stream_id),
                    path: object.s3_path.clone(),
                    read_start_offset: read_start,
                    len,
                    object_start,
                    object_end,
                    cached,
                },
            ),
        ),
    }
}

impl ObjectRead {
    /// What an observer is told before the read.
    pub fn begin_event(&self) -> (r: ColdStoreEvent)
        ensures
            r == (ColdStoreEvent::ReadObjectRangeBegin {
                stream_id: self.stream_id,
                path: self.path,
                read_start_offset: self.read_start_offset,
                len: self.len,
                object_start: self.object_start,
                object_end: self.object_end,
                cached: self.cached,
            }),
    {
        ColdStoreEvent::ReadObjectRangeBegin {
            stream_id: copy_stream(&self.stream_id),
            path: self.path.clone(),
            read_start_offset: self.read_start_offset,
            len: self.len,
            object_start: self.object_start,
            object_end: self.object_end,
            cached: self.cached,
        }
    }

    /// What a fault policy is asked before the read.
    pub fn fault_context(&self) -> (r: ColdStoreFaultContext)
        ensures
            r == (ColdStoreFaultContext {
                operation: ColdStoreOperation::ReadObjectRange,
                stream_id: self.stream_id,
                path: self.path,
                payload_len: None,
                read_start_offset: Some(self.read_start_offset),
                len: Some(self.len),
                object_start: Some(self.object_start),
                object_end: Some(self.object_end),
                cached: Some(self.cached),
            }),
    {
        ColdStoreFaultContext {
            operation: ColdStoreOperation::ReadObjectRange,
            stream_id: copy_stream(&self.stream_id),
            path: self.path.clone(),
            payload_len: None,
            read_start_offset: Some(self.read_start_offset),
            len: Some(self.len),
            object_start: Some(self.object_start),
            object_end: Some(self.object_end),
            cached: Some(self.cached),
        }
    }

    /// What is said of a read that gave `returned` bytes.
    pub open spec fn short_read(self, returned: usize) -> ColdStoreError {
        ColdStoreError::ShortRead {
            path: self.path,
            returned,
            object_start: self.object_start,
            object_end: self.object_end,
        }
    }

    /// Checks what the store returned. Every byte of the range must be there.
    pub fn check_len(&self, returned: usize) -> (r: Result<(), ColdStoreError>)
        ensures
            r == if returned == self.len {
                Ok::<(), ColdStoreError>(())
            } else {
                Err(self.short_read(returned))
            },
    {
        if returned != self.len {
            return Err(
                ColdStoreError::ShortRead {
                    path: self.path.clone(),
                    returned,
                    object_start: self.object_start,
                    object_end: self.object_end,
                },
            );
        }
        Ok(())
    }
}

/// How a read ended: the events to send, in order, and the bytes or the error.
#[derive(Debug)]
pub struct FinishedRead {
    pub truncated: Option<ColdStoreEvent>,
    pub completed: Option<ColdStoreEvent>,
    pub result: Result<Vec<u8>, ColdStoreError>,
}

/// Ends a read for which the store returned `bytes`. An injected bound cuts the
/// bytes; a read that has not exactly the bytes it asked for fails.
pub fn finish_object_read(
    read: &ObjectRead,
    bytes: Vec<u8>,
    truncate_read_to: Option<usize>,
) -> (r: FinishedRead)
    ensures
        ({
            let returned = match truncate_read_to {
                Some(bound) => if bound < bytes@.len() {
                    bound as int
                } else {
                    bytes@.len() as int
                },
                None => bytes@.len() as int,
            };
            if bytes@.len() != read.len {
                &&& r.truncated is None
                &&& r.completed is None
                &&& r.result == Err::<Vec<u8>, ColdStoreError>(
                    read.short_read(bytes@.len() as usize),
                )
            } else {
                &&& r.truncated == if truncate_read_to is Some {
                    Some(
                        ColdStoreEvent::TruncateInjected {
                            stream_id: read.stream_id,
                            path: read.path,
                            requested_len: read.len,
                            returned_len: returned as usize,
                        },
                    )
                } else {
                    None
                }
                &&& if returned == read.len {
                    &&& r.result is Ok
                    &&& r.result->Ok_0@ == bytes@
                    &&& r.completed == Some(
                        ColdStoreEvent::ReadObjectRangeComplete {
                            stream_id: read.stream_id,
                            path: read.path,
                            read_start_offset: read.read_start_offset,
                            len: read.len,
                            returned_len: read.len,
                            cached: read.cached,
                        },
                    )
                } else {
                    &&& r.result == Err::<Vec<u8>, ColdStoreError>(
                        read.short_read(returned as usize),
                    )
                    &&& r.completed is None
                }
            }
        }),
{
    match read.check_len(bytes.len()) {
        Ok(_) => {},
        Err(error) => {
            return FinishedRead { truncated: None, completed: None, result: Err(error) };
        },
    }
    let mut bytes = bytes;
    let ghost whole = bytes@;
    let truncated = match truncate_read_to {
        Some(bound) => {
            let returned_len: usize = if bound < bytes.len() {
                bound
            } else {
                bytes.len()
            };
            bytes.truncate(returned_len);
            Some(
                ColdStoreEvent::TruncateInjected {
                    stream_id: copy_stream(&read.stream_id),
                    path: read.path.clone(),
                    requested_len: read.len,
                    returned_len,
                },
            )
        },
        None => None,
    };
    match read.check_len(bytes.len()) {
        Ok(_) => {},
        Err(error) => {
            return FinishedRead { truncated, completed: None, result: Err(error) };
        },
    }
    assert(bytes@ =~= whole);
    let completed = ColdStoreEvent::ReadObjectRangeComplete {
        stream_id: copy_stream(&read.stream_id),
        path: read.path.clone(),
        read_start_offset: read.read_start_offset,
        len: read.len,
        returned_len: bytes.len(),
        cached: read.cached,
    };
    FinishedRead { truncated, completed: Some(completed), result: Ok(bytes) }
}

/// Checks the path of a chunk that is written or deleted.
pub fn check_chunk_path(path: &str) -> (r: Result<(), ColdStoreError>)
    ensures
        r == if text::is_blank_text(path@) {
            Err::<(), ColdStoreError>(ColdStoreError::EmptyPath)
        } else {
            Ok(())
        },
{
    if is_blank(path) {
        return Err(ColdStoreError::EmptyPath);
    }
    Ok(())
}

/// What a fault policy is asked before a chunk is written or deleted, or
/// objects are removed.
pub fn object_fault_context(
    operation: ColdStoreOperation,
    path: &str,
    payload_len: Option<usize>,
) -> (r: ColdStoreFaultContext)
    ensures
        r.operation == operation,
        r.stream_id is None,
        r.path@ == path@,
        r.payload_len == payload_len,
        r.read_start_offset is None,
        r.len is None,
        r.object_start is None,
        r.object_end is None,
        r.cached is None,
{
    ColdStoreFaultContext {
        operation,
        stream_id: None,
        path: path.to_owned(),
        payload_len,
        read_start_offset: None,
        len: None,
        object_start: None,
        object_end: None,
        cached: None,
    }
}

} // verus!
