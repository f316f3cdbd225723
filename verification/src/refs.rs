//! References from a stream to payloads that live in object storage.

use vstd::prelude::*;

verus! {

/// A run of stream bytes kept in one object.
pub struct ObjectSpan {
    pub start_offset: u64,
    pub end_offset: u64,
    pub object_size: u64,
    pub s3_path: Seq<char>,
}

impl ObjectSpan {
    /// Whether the object holds the byte at `offset`.
    pub open spec fn holds(self, offset: int) -> bool {
        self.start_offset <= offset < self.end_offset
    }
}

/// A cold chunk: stream bytes flushed into an object of their own.
#[derive(Debug, PartialEq, Eq)]
pub struct ColdChunkRef {
    pub start_offset: u64,
    pub end_offset: u64,
    pub s3_path: String,
    pub object_size: u64,
}

/// An object that holds a range of stream bytes.
#[derive(Debug, PartialEq, Eq)]
pub struct ObjectPayloadRef {
    pub start_offset: u64,
    pub end_offset: u64,
    pub s3_path: String,
    pub object_size: u64,
}

/// A payload that was uploaded before it was appended.
#[derive(Debug, PartialEq, Eq)]
pub struct ExternalPayloadRef {
    pub s3_path: String,
    pub payload_len: u64,
    pub object_size: u64,
}

/// The part of a read that one cold index page answers.
#[derive(Debug, Clone, Copy, PartialEq, Eq)]
pub struct StreamReadColdIndexSegment {
    pub generation: u64,
    pub page_id: u64,
    pub read_start_offset: u64,
    pub len: usize,
}

impl View for ColdChunkRef {
    type V = ObjectSpan;

    open spec fn view(&self) -> ObjectSpan {
        ObjectSpan {
            start_offset: self.start_offset,
            end_offset: self.end_offset,
            object_size: self.object_size,
            s3_path: self.s3_path@,
        }
    }
}

impl View for ObjectPayloadRef {
    type V = ObjectSpan;

    open spec fn view(&self) -> ObjectSpan {
        ObjectSpan {
            start_offset: self.start_offset,
            end_offset: self.end_offset,
            object_size: self.object_size,
            s3_path: self.s3_path@,
        }
    }
}

/// The spans of a list of cold chunks.
pub open spec fn chunk_spans(chunks: Seq<ColdChunkRef>) -> Seq<ObjectSpan> {
    chunks.map_values(|chunk: ColdChunkRef| chunk@)
}

/// The spans of a list of objects.
pub open spec fn object_spans(objects: Seq<ObjectPayloadRef>) -> Seq<ObjectSpan> {
    objects.map_values(|object: ObjectPayloadRef| object@)
}

impl Clone for ColdChunkRef {
    fn clone(&self) -> (r: Self)
        ensures
            r == *self,
    {
        ColdChunkRef {
            start_offset: self.start_offset,
            end_offset: self.end_offset,
            s3_path: self.s3_path.clone(),
            object_size: self.object_size,
        }
    }
}

impl Clone for ObjectPayloadRef {
    fn clone(&self) -> (r: Self)
        ensures
            r == *self,
    {
        ObjectPayloadRef {
            start_offset: self.start_offset,
            end_offset: self.end_offset,
            s3_path: self.s3_path.clone(),
            object_size: self.object_size,
        }
    }
}

impl Clone for ExternalPayloadRef {
    fn clone(&self) -> (r: Self)
        ensures
            r == *self,
    {
        ExternalPayloadRef {
            s3_path: self.s3_path.clone(),
            payload_len: self.payload_len,
            object_size: self.object_size,
        }
    }
}

impl ObjectPayloadRef {
    /// The object that a cold chunk is.
    pub fn of_chunk(chunk: &ColdChunkRef) -> (r: ObjectPayloadRef)
        ensures
            r@ == chunk@,
    {
        ObjectPayloadRef {
            start_offset: chunk.start_offset,
            end_offset: chunk.end_offset,
            s3_path: chunk.s3_path.clone(),
            object_size: chunk.object_size,
        }
    }
}

} // verus!
