//! Identities of streams, cores, shards and replicated groups.

use vstd::prelude::*;
use crate::table::Key;

verus! {

/// A stream inside a bucket.
#[derive(Debug, PartialEq, Eq, Hash)]
pub struct BucketStreamId {
    pub bucket_id: String,
    pub stream_id: String,
}

/// What a stream identity is: the two names.
pub struct StreamName {
    pub bucket: Seq<char>,
    pub stream: Seq<char>,
}

impl View for BucketStreamId {
    type V = StreamName;

    open spec fn view(&self) -> StreamName {
        StreamName { bucket: self.bucket_id@, stream: self.stream_id@ }
    }
}

impl StreamName {
    /// `bucket/stream`, the form in which a stream is written.
    pub open spec fn text(self) -> Seq<char> {
        self.bucket + "/"@ + self.stream
    }
}

impl Clone for BucketStreamId {
    fn clone(&self) -> (r: Self)
        ensures
            r == *self,
    {
        BucketStreamId { bucket_id: self.bucket_id.clone(), stream_id: self.stream_id.clone() }
    }
}

impl BucketStreamId {
    pub fn new(bucket_id: &str, stream_id: &str) -> (r: Self)
        ensures
            r@ == (StreamName { bucket: bucket_id@, stream: stream_id@ }),
    {
        BucketStreamId { bucket_id: bucket_id.to_owned(), stream_id: stream_id.to_owned() }
    }

    /// Whether both name the same stream of the same bucket.
    pub fn same(&self, other: &BucketStreamId) -> (r: bool)
        ensures
            r == (self@ == other@),
    {
        self.bucket_id == other.bucket_id && self.stream_id == other.stream_id
    }

    /// The stream written as `bucket/stream`.
    pub fn text(&self) -> (r: String)
        ensures
            r@ == self@.text(),
    {
        let mut text = self.bucket_id.clone();
        text.append("/");
        text.append(self.stream_id.as_str());
        text
    }
}

impl Key for BucketStreamId {
    fn same_key(&self, other: &Self) -> bool {
        self.same(other)
    }

    fn copy_key(&self) -> Self {
        self.clone()
    }
}

/// One core of the machine.
#[derive(Debug, Clone, Copy, PartialEq, Eq, Hash, Structural)]
pub struct CoreId(pub u16);

/// One shard of the key space.
#[derive(Debug, Clone, Copy, PartialEq, Eq, Hash, Structural)]
pub struct ShardId(pub u32);

/// One replicated group.
#[derive(Debug, Clone, Copy, PartialEq, Eq, PartialOrd, Ord, Hash, Structural)]
pub struct RaftGroupId(pub u32);

/// Where a stream's group lives.
#[derive(Debug, Clone, Copy, PartialEq, Eq, Hash, Structural)]
pub struct ShardPlacement {
    pub core_id: CoreId,
    pub shard_id: ShardId,
    pub raft_group_id: RaftGroupId,
}

} // verus!
