//! The cold index: fixed-span pages that say which objects hold which stream
//! bytes.

pub mod cache;
pub mod codec;
pub mod codec_laws;
pub mod entry_laws;
pub mod pages;
pub mod store;
pub mod store_laws;

use vstd::prelude::*;
use crate::ids::{BucketStreamId, StreamName};
use crate::refs;
use crate::refs::{ColdChunkRef, ObjectPayloadRef, ObjectSpan};
use crate::text;
use crate::text::{decimal_text, zero_padded_text};

verus! {

/// Names one page of a stream's cold index.
#[derive(Debug, PartialEq, Eq, Hash)]
pub struct ColdIndexPageKey {
    pub stream_id: BucketStreamId,
    pub generation: u64,
    pub page_id: u64,
}

/// What a page key is.
pub struct PageKey {
    pub stream: StreamName,
    pub generation: u64,
    pub page_id: u64,
}

impl View for ColdIndexPageKey {
    type V = PageKey;

    open spec fn view(&self) -> PageKey {
        PageKey {
            stream: self.stream_id@,
            generation: self.generation,
            page_id: self.page_id,
        }
    }
}

impl Clone for ColdIndexPageKey {
    fn clone(&self) -> (r: Self)
        ensures
            r == *self,
    {
        ColdIndexPageKey {
            stream_id: self.stream_id.clone(),
            generation: self.generation,
            page_id: self.page_id,
        }
    }
}

/// The prefix under which all index pages of a stream are stored.
pub open spec fn index_prefix(stream: StreamName) -> Seq<char> {
    stream.bucket + "/"@ + stream.stream + "/cold-index/"@
}

/// The object path of a page.
pub open spec fn page_path(key: PageKey) -> Seq<char> {
    index_prefix(key.stream) + text::zero_padded(text::decimal(key.generation as nat), 20) + "/"@
        + text::zero_padded(text::decimal(key.page_id as nat), 20) + ".idx"@
}

/// The prefix under which all index pages of `stream_id` are stored.
pub fn cold_index_prefix(stream_id: &BucketStreamId) -> (r: String)
    ensures
        r@ == index_prefix(stream_id@),
{
    let mut path = stream_id.bucket_id.clone();
    path.append("/");
    path.append(stream_id.stream_id.as_str());
    path.append("/cold-index/");
    path
}

impl ColdIndexPageKey {
    /// The object path of the page.
    pub fn path(&self) -> (r: String)
        ensures
            r@ == page_path(self@),
    {
        let mut path = cold_index_prefix(&self.stream_id);
        let generation = zero_padded_text(decimal_text(self.generation as u128).as_str(), 20);
        let page_id = zero_padded_text(decimal_text(self.page_id as u128).as_str(), 20);
        path.append(generation.as_str());
        path.append("/");
        path.append(page_id.as_str());
        path.append(".idx");
        path
    }

    /// Whether both name the same page.
    pub fn same(&self, other: &ColdIndexPageKey) -> (r: bool)
        ensures
            r == (self@ == other@),
    {
        self.stream_id.same(&other.stream_id) && self.generation == other.generation
            && self.page_id == other.page_id
    }
}

/// Every page of a stream lives under the index prefix of the stream, and two pages of a
/// stream never share a path.
pub proof fn law_page_paths_are_distinct(key: PageKey, other: PageKey)
    requires
        key.stream == other.stream,
    ensures
        text::begins_with(page_path(key), index_prefix(key.stream)),
        text::begins_with(
            index_prefix(key.stream),
            key.stream.bucket + "/"@ + key.stream.stream + "/"@,
        ),
        page_path(key) == page_path(other) ==> key == other,
{
    let prefix = index_prefix(key.stream);
    let stream = key.stream.bucket + "/"@ + key.stream.stream + "/"@;
    let start = prefix.len() as int;
    reveal_strlit("/");
    reveal_strlit("/cold-index/");
    assert(page_path(key).take(start) =~= prefix);
    assert(prefix.take(stream.len() as int) =~= stream);
    text::lemma_padded_decimal(key.generation);
    text::lemma_padded_decimal(other.generation);
    text::lemma_padded_decimal(key.page_id);
    text::lemma_padded_decimal(other.page_id);
    assert(page_path(key).subrange(start, start + 20) =~= text::zero_padded(
        text::decimal(key.generation as nat),
        20,
    ));
    assert(page_path(other).subrange(start, start + 20) =~= text::zero_padded(
        text::decimal(other.generation as nat),
        20,
    ));
    assert(page_path(key).subrange(start + 21, start + 41) =~= text::zero_padded(
        text::decimal(key.page_id as nat),
        20,
    ));
    assert(page_path(other).subrange(start + 21, start + 41) =~= text::zero_padded(
        text::decimal(other.page_id as nat),
        20,
    ));
}

/// One index page: the objects that hold bytes of `start_offset..end_offset`.
#[derive(Debug, PartialEq, Eq)]
pub struct ColdIndexPage {
    pub start_offset: u64,
    pub end_offset: u64,
    pub cold_chunks: Vec<ColdChunkRef>,
    pub external_segments: Vec<ObjectPayloadRef>,
}

/// What a page says.
#[verifier::ext_equal]
pub struct Page {
    pub start_offset: u64,
    pub end_offset: u64,
    pub cold_chunks: Seq<ObjectSpan>,
    pub external_segments: Seq<ObjectSpan>,
}

impl View for ColdIndexPage {
    type V = Page;

    open spec fn view(&self) -> Page {
        Page {
            start_offset: self.start_offset,
            end_offset: self.end_offset,
            cold_chunks: refs::chunk_spans(self.cold_chunks@),
            external_segments: refs::object_spans(self.external_segments@),
        }
    }
}

impl Clone for ColdIndexPage {
    fn clone(&self) -> (r: Self)
        ensures
            r@ == self@,
    {
        let r = ColdIndexPage {
            start_offset: self.start_offset,
            end_offset: self.end_offset,
            cold_chunks: self.cold_chunks.clone(),
            external_segments: self.external_segments.clone(),
        };
        assert(r@ =~= self@);
        r
    }
}

impl ColdIndexPage {
    /// Whether `offset` lies in the range of the page.
    pub fn covers(&self, offset: u64) -> (r: bool)
        ensures
            r == (self.start_offset <= offset < self.end_offset),
    {
        self.start_offset <= offset && offset < self.end_offset
    }
}

} // verus!
