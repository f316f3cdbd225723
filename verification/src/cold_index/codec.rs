//! The stored form of a cold index page.
//!
//! A page is a magic number, a version, the length of the body, the body and a
//! checksum of the body. The body repeats the page's key and lists its entries.

use vstd::prelude::*;
use vstd::utf8;
use crate::cold_index::{ColdIndexPage, ColdIndexPageKey, Page, PageKey};
use crate::ids::BucketStreamId;
use crate::io_error::IoErrorKind;
use crate::refs;
use crate::refs::{ColdChunkRef, ObjectPayloadRef, ObjectSpan};
use crate::text;
use crate::text::decimal_text;
use crate::wire;
use crate::wire::{get_le, put_slice, put_u16, put_u32, put_u64, put_u8};

verus! {

pub const COLD_INDEX_PAGE_VERSION: u16 = 1;

pub const COLD_INDEX_ENTRY_COLD_CHUNK: u8 = 1;

pub const COLD_INDEX_ENTRY_EXTERNAL_SEGMENT: u8 = 2;

pub const FNV64_OFFSET_BASIS: u64 = 0xcbf2_9ce4_8422_2325;

pub const FNV64_PRIME: u64 = 0x0000_0100_0000_01b3;

/// The eight bytes `UCIDX001` that open every page.
pub open spec fn page_magic() -> Seq<u8> {
    seq![0x55u8, 0x43, 0x49, 0x44, 0x58, 0x30, 0x30, 0x31]
}

/// Why a page could not be read.
#[derive(Debug, PartialEq, Eq)]
pub enum ColdIndexError {
    OffsetOverflow,
    EndedEarly,
    InvalidUtf8 { valid_up_to: usize, error_len: Option<usize> },
    InvalidMagic,
    UnsupportedVersion { version: u16 },
    TrailingBytes,
    ChecksumMismatch,
    KeyMismatch,
    ExpectedColdChunk,
    ExpectedExternalSegment,
    BodyTrailingBytes,
    MissingPage { path: String },
    ReadRangeOverflow,
    RangeNotCovered,
}

/// The class of an index error.
pub open spec fn error_kind(error: ColdIndexError) -> IoErrorKind {
    match error {
        ColdIndexError::EndedEarly => IoErrorKind::UnexpectedEof,
        ColdIndexError::MissingPage { .. } => IoErrorKind::NotFound,
        ColdIndexError::ReadRangeOverflow => IoErrorKind::InvalidInput,
        _ => IoErrorKind::InvalidData,
    }
}

/// The words of an index error.
pub open spec fn error_text(error: ColdIndexError) -> Seq<char> {
    match error {
        ColdIndexError::OffsetOverflow => "cold index page offset overflow"@,
        ColdIndexError::EndedEarly => "cold index page ended early"@,
        ColdIndexError::InvalidUtf8 { valid_up_to, error_len } => match error_len {
            Some(len) => "cold index page contains invalid UTF-8: invalid utf-8 sequence of "@
                + text::decimal(len as nat) + " bytes from index "@ + text::decimal(
                valid_up_to as nat,
            ),
            None =>
                "cold index page contains invalid UTF-8: incomplete utf-8 byte sequence from index "@
                + text::decimal(valid_up_to as nat),
        },
        ColdIndexError::InvalidMagic => "cold index page has invalid magic"@,
        ColdIndexError::UnsupportedVersion { version } => "unsupported cold index page version "@
            + text::decimal(version as nat),
        ColdIndexError::TrailingBytes => "cold index page has trailing bytes"@,
        ColdIndexError::ChecksumMismatch => "cold index page checksum mismatch"@,
        ColdIndexError::KeyMismatch => "cold index page key metadata mismatch"@,
        ColdIndexError::ExpectedColdChunk => "cold index page expected cold chunk entry"@,
        ColdIndexError::ExpectedExternalSegment =>
            "cold index page expected external segment entry"@,
        ColdIndexError::BodyTrailingBytes => "cold index page body has trailing bytes"@,
        ColdIndexError::MissingPage { path } => "cold index page '"@ + path@ + "' does not exist"@,
        ColdIndexError::ReadRangeOverflow => "cold index read range overflows"@,
        ColdIndexError::RangeNotCovered => "cold index page does not cover requested read range"@,
    }
}

impl ColdIndexError {
    pub fn kind(&self) -> (r: IoErrorKind)
        ensures
            r == error_kind(*self),
    {
        match self {
            ColdIndexError::EndedEarly => IoErrorKind::UnexpectedEof,
            ColdIndexError::MissingPage { .. } => IoErrorKind::NotFound,
            ColdIndexError::ReadRangeOverflow => IoErrorKind::InvalidInput,
            _ => IoErrorKind::InvalidData,
        }
    }

    pub fn message(&self) -> (r: String)
        ensures
            r@ == error_text(*self),
    {
        match self {
            ColdIndexError::OffsetOverflow => "cold index page offset overflow".to_owned(),
            ColdIndexError::EndedEarly => "cold index page ended early".to_owned(),
            ColdIndexError::InvalidUtf8 { valid_up_to, error_len } => match error_len {
                Some(len) => {
                    let mut text =
                        "cold index page contains invalid UTF-8: invalid utf-8 sequence of ".to_owned();
                    text.append(decimal_text(*len as u128).as_str());
                    text.append(" bytes from index ");
                    text.append(decimal_text(*valid_up_to as u128).as_str());
                    text
                },
                None => {
                    let mut text =
                        "cold index page contains invalid UTF-8: incomplete utf-8 byte sequence from index ".to_owned();
                    text.append(decimal_text(*valid_up_to as u128).as_str());
                    text
                },
            },
            ColdIndexError::InvalidMagic => "cold index page has invalid magic".to_owned(),
            ColdIndexError::UnsupportedVersion { version } => {
                let mut text = "unsupported cold index page version ".to_owned();
                text.append(decimal_text(*version as u128).as_str());
                text
            },
            ColdIndexError::TrailingBytes => "cold index page has trailing bytes".to_owned(),
            ColdIndexError::ChecksumMismatch => "cold index page checksum mismatch".to_owned(),
            ColdIndexError::KeyMismatch => "cold index page key metadata mismatch".to_owned(),
            ColdIndexError::ExpectedColdChunk =>
                "cold index page expected cold chunk entry".to_owned(),
            ColdIndexError::ExpectedExternalSegment =>
                "cold index page expected external segment entry".to_owned(),
            ColdIndexError::BodyTrailingBytes =>
                "cold index page body has trailing bytes".to_owned(),
            ColdIndexError::MissingPage { path } => {
                let mut text = "cold index page '".to_owned();
                text.append(path.as_str());
                text.append("' does not exist");
                text
            },
            ColdIndexError::ReadRangeOverflow => "cold index read range overflows".to_owned(),
            ColdIndexError::RangeNotCovered =>
                "cold index page does not cover requested read range".to_owned(),
        }
    }
}

/// Where decoding `bytes` as UTF-8 stops: the length of the longest valid
/// prefix, and the length of the sequence that is invalid there, if it does not
/// merely end too soon.
pub uninterp spec fn utf8_fault(bytes: Seq<u8>) -> (usize, Option<usize>);

/// `String::from_utf8`, with `Utf8Error::valid_up_to` and
/// `Utf8Error::error_len` of its error: it succeeds on exactly the valid UTF-8
/// sequences and gives the text that they encode; its error depends on the
/// bytes alone.
#[verifier::external_body]
fn string_from_utf8(bytes: Vec<u8>) -> (r: Result<String, (usize, Option<usize>)>)
    ensures
        r is Ok <==> utf8::valid_utf8(bytes@),
        r matches Ok(text) ==> text@ == utf8::decode_utf8(bytes@),
        r matches Err(fault) ==> fault == utf8_fault(bytes@),
{
    match String::from_utf8(bytes) {
        Ok(text) => Ok(text),
        Err(err) => Err((err.utf8_error().valid_up_to(), err.utf8_error().error_len())),
    }
}

// ---------------------------------------------------------------------------
// Writing
// ---------------------------------------------------------------------------

/// A text with its length in front of it.
pub open spec fn text_bytes(value: Seq<char>) -> Seq<u8> {
    let bytes = utf8::encode_utf8(value);
    wire::le_bytes(bytes.len(), 4) + bytes
}

/// One entry of a page.
pub open spec fn entry_bytes(tag: u8, entry: ObjectSpan) -> Seq<u8> {
    seq![tag] + wire::le_bytes(entry.start_offset as nat, 8) + wire::le_bytes(
        entry.end_offset as nat,
        8,
    ) + wire::le_bytes(entry.object_size as nat, 8) + text_bytes(entry.s3_path)
}

/// Entries one after the other.
pub open spec fn entry_list_bytes(tag: u8, entries: Seq<ObjectSpan>) -> Seq<u8>
    decreases entries.len(),
{
    if entries.len() == 0 {
        Seq::empty()
    } else {
        entry_list_bytes(tag, entries.drop_last()) + entry_bytes(tag, entries.last())
    }
}

/// The key of a page inside its body.
pub open spec fn key_bytes(key: PageKey) -> Seq<u8> {
    text_bytes(key.stream.bucket) + text_bytes(key.stream.stream) + wire::le_bytes(
        key.generation as nat,
        8,
    ) + wire::le_bytes(key.page_id as nat, 8)
}

/// The body of a page.
pub open spec fn body_bytes(key: PageKey, page: Page) -> Seq<u8> {
    key_bytes(key) + wire::le_bytes(page.start_offset as nat, 8) + wire::le_bytes(
        page.end_offset as nat,
        8,
    ) + wire::le_bytes(page.cold_chunks.len(), 4) + entry_list_bytes(
        COLD_INDEX_ENTRY_COLD_CHUNK,
        page.cold_chunks,
    ) + wire::le_bytes(page.external_segments.len(), 4) + entry_list_bytes(
        COLD_INDEX_ENTRY_EXTERNAL_SEGMENT,
        page.external_segments,
    )
}

/// One step of the 64-bit FNV-1a hash.
pub open spec fn fnv_step(hash: u64, byte: u8) -> u64 {
    (((hash ^ (byte as u64)) * FNV64_PRIME) % 0x1_0000_0000_0000_0000) as u64
}

/// The 64-bit FNV-1a hash.
pub open spec fn fnv64(bytes: Seq<u8>) -> u64
    decreases bytes.len(),
{
    if bytes.len() == 0 {
        FNV64_OFFSET_BASIS
    } else {
        fnv_step(fnv64(bytes.drop_last()), bytes.last())
    }
}

/// The stored form of a page.
pub open spec fn page_bytes(key: PageKey, page: Page) -> Seq<u8> {
    let body = body_bytes(key, page);
    page_magic() + wire::le_bytes(COLD_INDEX_PAGE_VERSION as nat, 2) + wire::le_bytes(
        body.len(),
        4,
    ) + body + wire::le_bytes(fnv64(body) as nat, 8)
}

/// Whether every length of the stored form fits its field, and the whole fits
/// in memory.
pub open spec fn page_fits(key: PageKey, page: Page) -> bool {
    &&& body_bytes(key, page).len() <= u32::MAX
    &&& page_bytes(key, page).len() <= usize::MAX
}

pub fn checksum64(bytes: &[u8]) -> (hash: u64)
    ensures
        hash == fnv64(bytes@),
{
    let mut hash: u64 = FNV64_OFFSET_BASIS;
    let mut i: usize = 0;
    while i < bytes.len()
        invariant
            i <= bytes@.len(),
            hash == fnv64(bytes@.take(i as int)),
        decreases bytes@.len() - i,
    {
        hash = (hash ^ (bytes[i] as u64)).wrapping_mul(FNV64_PRIME);
        i = i + 1;
        assert(bytes@.take(i as int).drop_last() =~= bytes@.take(i - 1));
    }
    assert(bytes@.take(i as int) =~= bytes@);
    hash
}

pub fn put_string(out: &mut Vec<u8>, value: &str)
    requires
        utf8::encode_utf8(value@).len() <= u32::MAX,
    ensures
        final(out)@ == old(out)@ + text_bytes(value@),
{
    let bytes = value.as_bytes();
    let ghost start = out@;
    put_u32(out, bytes.len() as u32);
    put_slice(out, bytes);
    assert(out@ =~= start + text_bytes(value@));
}


proof fn lemma_entry_bytes_len(tag: u8, entry: ObjectSpan)
    ensures
        entry_bytes(tag, entry).len() == 29 + utf8::encode_utf8(entry.s3_path).len(),
        text_bytes(entry.s3_path).len() == 4 + utf8::encode_utf8(entry.s3_path).len(),
{
    wire::lemma_le_bytes_len(entry.start_offset as nat, 8);
    wire::lemma_le_bytes_len(entry.end_offset as nat, 8);
    wire::lemma_le_bytes_len(entry.object_size as nat, 8);
    wire::lemma_le_bytes_len(utf8::encode_utf8(entry.s3_path).len(), 4);
}

/// A list of entries is at least as long as any of its texts and as its count.
proof fn lemma_entry_list_len(tag: u8, entries: Seq<ObjectSpan>)
    ensures
        entry_list_bytes(tag, entries).len() >= entries.len(),
        forall|i: int|
            0 <= i < entries.len() ==> utf8::encode_utf8(
                (#[trigger] entries[i]).s3_path,
            ).len() <= entry_list_bytes(tag, entries).len(),
    decreases entries.len(),
{
    if entries.len() > 0 {
        lemma_entry_list_len(tag, entries.drop_last());
        lemma_entry_bytes_len(tag, entries.last());
        assert forall|i: int| 0 <= i < entries.len() implies utf8::encode_utf8(
            (#[trigger] entries[i]).s3_path,
        ).len() <= entry_list_bytes(tag, entries).len() by {
            if i < entries.len() - 1 {
                assert(entries[i] == entries.drop_last()[i]);
            }
        }
    }
}

pub proof fn lemma_page_fits(key: PageKey, page: Page)
    requires
        page_fits(key, page),
    ensures
        utf8::encode_utf8(key.stream.bucket).len() <= u32::MAX,
        utf8::encode_utf8(key.stream.stream).len() <= u32::MAX,
        page.cold_chunks.len() <= u32::MAX,
        page.external_segments.len() <= u32::MAX,
        forall|i: int|
            0 <= i < page.cold_chunks.len() ==> utf8::encode_utf8(
                (#[trigger] page.cold_chunks[i]).s3_path,
            ).len() <= u32::MAX,
        forall|i: int|
            0 <= i < page.external_segments.len() ==> utf8::encode_utf8(
                (#[trigger] page.external_segments[i]).s3_path,
            ).len() <= u32::MAX,
{
    lemma_entry_list_len(COLD_INDEX_ENTRY_COLD_CHUNK, page.cold_chunks);
    lemma_entry_list_len(COLD_INDEX_ENTRY_EXTERNAL_SEGMENT, page.external_segments);
    assert(body_bytes(key, page).len() >= utf8::encode_utf8(key.stream.bucket).len());
}

/// How long a body is.
pub proof fn lemma_body_len(key: PageKey, page: Page)
    ensures
        body_bytes(key, page).len() == text_bytes(key.stream.bucket).len() + text_bytes(
            key.stream.stream,
        ).len() + 40 + entry_list_bytes(COLD_INDEX_ENTRY_COLD_CHUNK, page.cold_chunks).len()
            + entry_list_bytes(COLD_INDEX_ENTRY_EXTERNAL_SEGMENT, page.external_segments).len(),
        page_bytes(key, page).len() == body_bytes(key, page).len() + 22,
{
    wire::lemma_le_bytes_len(key.generation as nat, 8);
    wire::lemma_le_bytes_len(key.page_id as nat, 8);
    wire::lemma_le_bytes_len(page.start_offset as nat, 8);
    wire::lemma_le_bytes_len(page.end_offset as nat, 8);
    wire::lemma_le_bytes_len(page.cold_chunks.len(), 4);
    wire::lemma_le_bytes_len(page.external_segments.len(), 4);
    wire::lemma_le_bytes_len(COLD_INDEX_PAGE_VERSION as nat, 2);
    wire::lemma_le_bytes_len(body_bytes(key, page).len(), 4);
    wire::lemma_le_bytes_len(fnv64(body_bytes(key, page)) as nat, 8);
}

fn put_entry(
    out: &mut Vec<u8>,
    tag: u8,
    start_offset: u64,
    end_offset: u64,
    object_size: u64,
    s3_path: &str,
)
    requires
        utf8::encode_utf8(s3_path@).len() <= u32::MAX,
    ensures
        final(out)@ == old(out)@ + entry_bytes(
            tag,
            (ObjectSpan { start_offset, end_offset, object_size, s3_path: s3_path@ }),
        ),
{
    let ghost start = out@;
    put_u8(out, tag);
    put_u64(out, start_offset);
    put_u64(out, end_offset);
    put_u64(out, object_size);
    put_string(out, s3_path);
    assert(out@ =~= start + entry_bytes(
        tag,
        ObjectSpan { start_offset, end_offset, object_size, s3_path: s3_path@ },
    ));
}

fn put_chunks(out: &mut Vec<u8>, chunks: &Vec<ColdChunkRef>)
    requires
        forall|i: int|
            0 <= i < chunks@.len() ==> utf8::encode_utf8(
                (#[trigger] chunks@[i]).s3_path@,
            ).len() <= u32::MAX,
    ensures
        final(out)@ == old(out)@ + entry_list_bytes(
            COLD_INDEX_ENTRY_COLD_CHUNK,
            refs::chunk_spans(chunks@),
        ),
{
    let ghost start = out@;
    let ghost spans = refs::chunk_spans(chunks@);
    let mut i: usize = 0;
    assert(start + entry_list_bytes(COLD_INDEX_ENTRY_COLD_CHUNK, spans.take(0)) =~= start);
    while i < chunks.len()
        invariant
            i <= chunks@.len(),
            spans == refs::chunk_spans(chunks@),
            forall|j: int|
                0 <= j < chunks@.len() ==> utf8::encode_utf8(
                    (#[trigger] chunks@[j]).s3_path@,
                ).len() <= u32::MAX,
            out@ == start + entry_list_bytes(
                COLD_INDEX_ENTRY_COLD_CHUNK,
                spans.take(i as int),
            ),
        decreases chunks@.len() - i,
    {
        let chunk = &chunks[i];
        let ghost before = out@;
        put_entry(
            out,
            COLD_INDEX_ENTRY_COLD_CHUNK,
            chunk.start_offset,
            chunk.end_offset,
            chunk.object_size,
            chunk.s3_path.as_str(),
        );
        i = i + 1;
        proof {
            assert(spans.take(i as int).drop_last() =~= spans.take(i - 1));
            assert(spans.take(i as int).last() == chunk@);
            assert(out@ =~= start + entry_list_bytes(
                COLD_INDEX_ENTRY_COLD_CHUNK,
                spans.take(i as int),
            ));
        }
    }
    assert(spans.take(i as int) =~= spans);
}

fn put_segments(out: &mut Vec<u8>, objects: &Vec<ObjectPayloadRef>)
    requires
        forall|i: int|
            0 <= i < objects@.len() ==> utf8::encode_utf8(
                (#[trigger] objects@[i]).s3_path@,
            ).len() <= u32::MAX,
    ensures
        final(out)@ == old(out)@ + entry_list_bytes(
            COLD_INDEX_ENTRY_EXTERNAL_SEGMENT,
            refs::object_spans(objects@),
        ),
{
    let ghost start = out@;
    let ghost spans = refs::object_spans(objects@);
    let mut i: usize = 0;
    assert(start + entry_list_bytes(COLD_INDEX_ENTRY_EXTERNAL_SEGMENT, spans.take(0)) =~= start);
    while i < objects.len()
        invariant
            i <= objects@.len(),
            spans == refs::object_spans(objects@),
            forall|j: int|
                0 <= j < objects@.len() ==> utf8::encode_utf8(
                    (#[trigger] objects@[j]).s3_path@,
                ).len() <= u32::MAX,
            out@ == start + entry_list_bytes(
                COLD_INDEX_ENTRY_EXTERNAL_SEGMENT,
                spans.take(i as int),
            ),
        decreases objects@.len() - i,
    {
        let object = &objects[i];
        put_entry(
            out,
            COLD_INDEX_ENTRY_EXTERNAL_SEGMENT,
            object.start_offset,
            object.end_offset,
            object.object_size,
            object.s3_path.as_str(),
        );
        i = i + 1;
        proof {
            assert(spans.take(i as int).drop_last() =~= spans.take(i - 1));
            assert(spans.take(i as int).last() == object@);
            assert(out@ =~= start + entry_list_bytes(
                COLD_INDEX_ENTRY_EXTERNAL_SEGMENT,
                spans.take(i as int),
            ));
        }
    }
    assert(spans.take(i as int) =~= spans);
}

fn put_magic(out: &mut Vec<u8>)
    ensures
        final(out)@ == old(out)@ + page_magic(),
{
    let ghost start = out@;
    put_u8(out, 0x55);
    put_u8(out, 0x43);
    put_u8(out, 0x49);
    put_u8(out, 0x44);
    put_u8(out, 0x58);
    put_u8(out, 0x30);
    put_u8(out, 0x30);
    put_u8(out, 0x31);
    assert(out@ =~= start + page_magic());
}

proof fn lemma_entry_list_grows(tag: u8, entries: Seq<ObjectSpan>, n: int)
    requires
        0 <= n <= entries.len(),
    ensures
        entry_list_bytes(tag, entries.take(n)).len() <= entry_list_bytes(tag, entries).len(),
    decreases entries.len() - n,
{
    if n < entries.len() {
        lemma_entry_list_grows(tag, entries, n + 1);
        assert(entries.take(n + 1).drop_last() =~= entries.take(n));
    } else {
        assert(entries.take(n) =~= entries);
    }
}

/// `total` and the lengths of the chunks, unless that is too much for a body.
fn with_chunk_lens(total: u128, chunks: &Vec<ColdChunkRef>) -> (r: Option<u128>)
    requires
        total <= u32::MAX,
    ensures
        ({
            let len = entry_list_bytes(COLD_INDEX_ENTRY_COLD_CHUNK, refs::chunk_spans(chunks@)).len();
            match r {
                Some(sum) => sum == total + len && sum <= u32::MAX,
                None => total + len > u32::MAX,
            }
        }),
{
    let ghost all = refs::chunk_spans(chunks@);
    let mut sum: u128 = total;
    let mut i: usize = 0;
    assert(all.take(0) =~= Seq::empty());
    while i < chunks.len()
        invariant
            i <= chunks@.len(),
            all == refs::chunk_spans(chunks@),
            sum == total + entry_list_bytes(COLD_INDEX_ENTRY_COLD_CHUNK, all.take(i as int)).len(),
            sum <= u32::MAX,
        decreases chunks@.len() - i,
    {
        let path_len: usize = chunks[i].s3_path.as_str().as_bytes().len();
        proof {
            assert(all.take(i + 1).drop_last() =~= all.take(i as int));
            assert(all.take(i + 1).last() == all[i as int]);
            lemma_entry_bytes_len(COLD_INDEX_ENTRY_COLD_CHUNK, all[i as int]);
        }
        sum = sum + 29 + path_len as u128;
        i = i + 1;
        if sum > u32::MAX as u128 {
            proof {
                lemma_entry_list_grows(COLD_INDEX_ENTRY_COLD_CHUNK, all, i as int);
            }
            return None;
        }
    }
    assert(all.take(i as int) =~= all);
    Some(sum)
}

/// `total` and the lengths of the segments, unless that is too much for a body.
fn with_segment_lens(total: u128, objects: &Vec<ObjectPayloadRef>) -> (r: Option<u128>)
    requires
        total <= u32::MAX,
    ensures
        ({
            let len = entry_list_bytes(COLD_INDEX_ENTRY_EXTERNAL_SEGMENT, refs::object_spans(objects@)).len();
            match r {
                Some(sum) => sum == total + len && sum <= u32::MAX,
                None => total + len > u32::MAX,
            }
        }),
{
    let ghost all = refs::object_spans(objects@);
    let mut sum: u128 = total;
    let mut i: usize = 0;
    assert(all.take(0) =~= Seq::empty());
    while i < objects.len()
        invariant
            i <= objects@.len(),
            all == refs::object_spans(objects@),
            sum == total + entry_list_bytes(COLD_INDEX_ENTRY_EXTERNAL_SEGMENT, all.take(i as int)).len(),
            sum <= u32::MAX,
        decreases objects@.len() - i,
    {
        let path_len: usize = objects[i].s3_path.as_str().as_bytes().len();
        proof {
            assert(all.take(i + 1).drop_last() =~= all.take(i as int));
            assert(all.take(i + 1).last() == all[i as int]);
            lemma_entry_bytes_len(COLD_INDEX_ENTRY_EXTERNAL_SEGMENT, all[i as int]);
        }
        sum = sum + 29 + path_len as u128;
        i = i + 1;
        if sum > u32::MAX as u128 {
            proof {
                lemma_entry_list_grows(COLD_INDEX_ENTRY_EXTERNAL_SEGMENT, all, i as int);
            }
            return None;
        }
    }
    assert(all.take(i as int) =~= all);
    Some(sum)
}

/// Whether a page can be stored: whether every length of its stored form fits its
/// field, and the whole fits in memory.
pub fn can_be_stored(key: &ColdIndexPageKey, page: &ColdIndexPage) -> (r: bool)
    ensures
        r == page_fits(key@, page@),
{
    proof {
        lemma_body_len(key@, page@);
        wire::lemma_le_bytes_len(utf8::encode_utf8(key@.stream.bucket).len(), 4);
        wire::lemma_le_bytes_len(utf8::encode_utf8(key@.stream.stream).len(), 4);
    }
    let bucket_len: usize = key.stream_id.bucket_id.as_str().as_bytes().len();
    let stream_len: usize = key.stream_id.stream_id.as_str().as_bytes().len();
    let head: u128 = bucket_len as u128 + stream_len as u128 + 48;
    if head > u32::MAX as u128 {
        return false;
    }
    match with_chunk_lens(head, &page.cold_chunks) {
        None => false,
        Some(total) => match with_segment_lens(total, &page.external_segments) {
            None => false,
            Some(total) => total + 22 <= usize::MAX as u128,
        },
    }
}

/// The stored form of `page` under `key`.
pub fn encode_page(key: &ColdIndexPageKey, page: &ColdIndexPage) -> (r: Vec<u8>)
    requires
        page_fits(key@, page@),
    ensures
        r@ == page_bytes(key@, page@),
{
    proof {
        lemma_page_fits(key@, page@);
        assert forall|i: int| 0 <= i < page.cold_chunks@.len() implies utf8::encode_utf8(
            (#[trigger] page.cold_chunks@[i]).s3_path@,
        ).len() <= u32::MAX by {
            assert(page@.cold_chunks[i] == page.cold_chunks@[i]@);
        }
        assert forall|i: int| 0 <= i < page.external_segments@.len() implies utf8::encode_utf8(
            (#[trigger] page.external_segments@[i]).s3_path@,
        ).len() <= u32::MAX by {
            assert(page@.external_segments[i] == page.external_segments@[i]@);
        }
    }
    let mut body: Vec<u8> = Vec::new();
    put_string(&mut body, key.stream_id.bucket_id.as_str());
    put_string(&mut body, key.stream_id.stream_id.as_str());
    put_u64(&mut body, key.generation);
    put_u64(&mut body, key.page_id);
    assert(body@ =~= key_bytes(key@));
    put_u64(&mut body, page.start_offset);
    put_u64(&mut body, page.end_offset);
    put_u32(&mut body, page.cold_chunks.len() as u32);
    put_chunks(&mut body, &page.cold_chunks);
    put_u32(&mut body, page.external_segments.len() as u32);
    put_segments(&mut body, &page.external_segments);
    assert(body@ =~= body_bytes(key@, page@));
    let mut bytes: Vec<u8> = Vec::new();
    put_magic(&mut bytes);
    put_u16(&mut bytes, COLD_INDEX_PAGE_VERSION);
    put_u32(&mut bytes, body.len() as u32);
    put_slice(&mut bytes, body.as_slice());
    put_u64(&mut bytes, checksum64(body.as_slice()));
    assert(bytes@ =~= page_bytes(key@, page@));
    bytes
}

// ---------------------------------------------------------------------------
// Reading
// ---------------------------------------------------------------------------

/// The `len` bytes at `at`, and where they end.
pub open spec fn take_at(bytes: Seq<u8>, at: nat, len: nat) -> Result<
    (Seq<u8>, nat),
    ColdIndexError,
> {
    if at + len > usize::MAX {
        Err(ColdIndexError::OffsetOverflow)
    } else if at + len > bytes.len() {
        Err(ColdIndexError::EndedEarly)
    } else {
        Ok((bytes.subrange(at as int, (at + len) as int), at + len))
    }
}

/// The number in the `width` bytes at `at`.
pub open spec fn number_at(bytes: Seq<u8>, at: nat, width: nat) -> Result<
    (nat, nat),
    ColdIndexError,
> {
    match take_at(bytes, at, width) {
        Err(error) => Err(error),
        Ok((taken, next)) => Ok((wire::le_value(taken), next)),
    }
}

/// The text at `at`.
pub open spec fn text_at(bytes: Seq<u8>, at: nat) -> Result<(Seq<char>, nat), ColdIndexError> {
    match number_at(bytes, at, 4) {
        Err(error) => Err(error),
        Ok((len, next)) => match take_at(bytes, next, len) {
            Err(error) => Err(error),
            Ok((taken, end)) => if utf8::valid_utf8(taken) {
                Ok((utf8::decode_utf8(taken), end))
            } else {
                Err(
                    ColdIndexError::InvalidUtf8 {
                        valid_up_to: utf8_fault(taken).0,
                        error_len: utf8_fault(taken).1,
                    },
                )
            },
        },
    }
}

/// The entry with the tag `tag` at `at`; another tag gives `wrong`.
pub open spec fn entry_at(bytes: Seq<u8>, at: nat, tag: u8, wrong: ColdIndexError) -> Result<
    (ObjectSpan, nat),
    ColdIndexError,
> {
    match number_at(bytes, at, 1) {
        Err(error) => Err(error),
        Ok((found, at1)) => if found != tag {
            Err(wrong)
        } else {
            match number_at(bytes, at1, 8) {
                Err(error) => Err(error),
                Ok((start_offset, at2)) => match number_at(bytes, at2, 8) {
                    Err(error) => Err(error),
                    Ok((end_offset, at3)) => match number_at(bytes, at3, 8) {
                        Err(error) => Err(error),
                        Ok((object_size, at4)) => match text_at(bytes, at4) {
                            Err(error) => Err(error),
                            Ok((s3_path, at5)) => Ok(
                                (
                                    ObjectSpan {
                                        start_offset: start_offset as u64,
                                        end_offset: end_offset as u64,
                                        object_size: object_size as u64,
                                        s3_path,
                                    },
                                    at5,
                                ),
                            ),
                        },
                    },
                },
            }
        },
    }
}

/// `count` entries from `at` on.
pub open spec fn entries_at(
    bytes: Seq<u8>,
    at: nat,
    tag: u8,
    wrong: ColdIndexError,
    count: nat,
) -> Result<(Seq<ObjectSpan>, nat), ColdIndexError>
    decreases count,
{
    if count == 0 {
        Ok((Seq::empty(), at))
    } else {
        match entries_at(bytes, at, tag, wrong, (count - 1) as nat) {
            Err(error) => Err(error),
            Ok((entries, next)) => match entry_at(bytes, next, tag, wrong) {
                Err(error) => Err(error),
                Ok((entry, end)) => Ok((entries.push(entry), end)),
            },
        }
    }
}

/// A counted list of entries at `at`.
pub open spec fn entry_list_at(bytes: Seq<u8>, at: nat, tag: u8, wrong: ColdIndexError) -> Result<
    (Seq<ObjectSpan>, nat),
    ColdIndexError,
> {
    match number_at(bytes, at, 4) {
        Err(error) => Err(error),
        Ok((count, next)) => entries_at(bytes, next, tag, wrong, count),
    }
}

/// The key at `at`.
pub open spec fn key_at(bytes: Seq<u8>, at: nat) -> Result<(PageKey, nat), ColdIndexError> {
    match text_at(bytes, at) {
        Err(error) => Err(error),
        Ok((bucket, at1)) => match text_at(bytes, at1) {
            Err(error) => Err(error),
            Ok((stream, at2)) => match number_at(bytes, at2, 8) {
                Err(error) => Err(error),
                Ok((generation, at3)) => match number_at(bytes, at3, 8) {
                    Err(error) => Err(error),
                    Ok((page_id, at4)) => Ok(
                        (
                            PageKey {
                                stream: crate::ids::StreamName { bucket, stream },
                                generation: generation as u64,
                                page_id: page_id as u64,
                            },
                            at4,
                        ),
                    ),
                },
            },
        },
    }
}

/// The page in a body that must belong to `key`.
pub open spec fn body_page(key: PageKey, body: Seq<u8>) -> Result<Page, ColdIndexError> {
    match key_at(body, 0) {
        Err(error) => Err(error),
        Ok((found, at1)) => if found != key {
            Err(ColdIndexError::KeyMismatch)
        } else {
            match number_at(body, at1, 8) {
                Err(error) => Err(error),
                Ok((start_offset, at2)) => match number_at(body, at2, 8) {
                    Err(error) => Err(error),
                    Ok((end_offset, at3)) => match entry_list_at(
                        body,
                        at3,
                        COLD_INDEX_ENTRY_COLD_CHUNK,
                        ColdIndexError::ExpectedColdChunk,
                    ) {
                        Err(error) => Err(error),
                        Ok((cold_chunks, at4)) => match entry_list_at(
                            body,
                            at4,
                            COLD_INDEX_ENTRY_EXTERNAL_SEGMENT,
                            ColdIndexError::ExpectedExternalSegment,
                        ) {
                            Err(error) => Err(error),
                            Ok((external_segments, at5)) => if at5 != body.len() {
                                Err(ColdIndexError::BodyTrailingBytes)
                            } else {
                                Ok(
                                    Page {
                                        start_offset: start_offset as u64,
                                        end_offset: end_offset as u64,
                                        cold_chunks,
                                        external_segments,
                                    },
                                )
                            },
                        },
                    },
                },
            }
        },
    }
}

/// The body of a stored page whose frame is sound.
pub open spec fn framed_body(bytes: Seq<u8>) -> Result<Seq<u8>, ColdIndexError> {
    match take_at(bytes, 0, 8) {
        Err(error) => Err(error),
        Ok((magic, at1)) => if magic != page_magic() {
            Err(ColdIndexError::InvalidMagic)
        } else {
            match number_at(bytes, at1, 2) {
                Err(error) => Err(error),
                Ok((version, at2)) => if version != COLD_INDEX_PAGE_VERSION {
                    Err(ColdIndexError::UnsupportedVersion { version: version as u16 })
                } else {
                    match number_at(bytes, at2, 4) {
                        Err(error) => Err(error),
                        Ok((body_len, at3)) => match take_at(bytes, at3, body_len) {
                            Err(error) => Err(error),
                            Ok((body, at4)) => match number_at(bytes, at4, 8) {
                                Err(error) => Err(error),
                                Ok((checksum, at5)) => if at5 != bytes.len() {
                                    Err(ColdIndexError::TrailingBytes)
                                } else if checksum != fnv64(body) {
                                    Err(ColdIndexError::ChecksumMismatch)
                                } else {
                                    Ok(body)
                                },
                            },
                        },
                    }
                },
            }
        },
    }
}

/// The page that `bytes` store under `key`, or why there is none.
pub open spec fn stored_page(key: PageKey, bytes: Seq<u8>) -> Result<Page, ColdIndexError> {
    match framed_body(bytes) {
        Err(error) => Err(error),
        Ok(body) => body_page(key, body),
    }
}

/// Reads a byte sequence from front to back.
pub struct Cursor<'a> {
    bytes: &'a [u8],
    offset: usize,
}

impl<'a> Cursor<'a> {
    /// The whole byte sequence.
    pub closed spec fn all(&self) -> Seq<u8> {
        self.bytes@
    }

    /// How many bytes were read.
    pub closed spec fn at(&self) -> nat {
        self.offset as nat
    }

    pub open spec fn wf(&self) -> bool {
        self.at() <= self.all().len()
    }

    pub fn new(bytes: &'a [u8]) -> (r: Self)
        ensures
            r.wf(),
            r.all() == bytes@,
            r.at() == 0,
    {
        Cursor { bytes, offset: 0 }
    }

    pub fn remaining(&self) -> (r: usize)
        requires
            self.wf(),
        ensures
            r == self.all().len() - self.at(),
    {
        self.bytes.len() - self.offset
    }

    pub fn read_exact(&mut self, len: usize) -> (r: Result<&'a [u8], ColdIndexError>)
        requires
            old(self).wf(),
        ensures
            final(self).wf(),
            final(self).all() == old(self).all(),
            match take_at(old(self).all(), old(self).at(), len as nat) {
                Ok((taken, next)) => r is Ok && r->Ok_0@ == taken && final(self).at() == next,
                Err(error) => r == Err::<&'a [u8], ColdIndexError>(error) && final(self).at()
                    == old(self).at(),
            },
    {
        let end = match self.offset.checked_add(len) {
            Some(end) => end,
            None => {
                return Err(ColdIndexError::OffsetOverflow);
            },
        };
        if end > self.bytes.len() {
            return Err(ColdIndexError::EndedEarly);
        }
        let bytes: &'a [u8] = self.bytes;
        let taken = vstd::slice::slice_subrange(bytes, self.offset, end);
        self.offset = end;
        Ok(taken)
    }

    fn read_number(&mut self, width: usize) -> (r: Result<u64, ColdIndexError>)
        requires
            old(self).wf(),
            width <= 8,
        ensures
            final(self).wf(),
            final(self).all() == old(self).all(),
            match number_at(old(self).all(), old(self).at(), width as nat) {
                Ok((value, next)) => {
                    &&& r is Ok
                    &&& r->Ok_0 == value
                    &&& value < wire::byte_limit(width as nat)
                    &&& final(self).at() == next
                },
                Err(error) => r == Err::<u64, ColdIndexError>(error) && final(self).at() == old(self).at(),
            },
    {
        match self.read_exact(width) {
            Ok(bytes) => {
                proof {
                    wire::lemma_le_bytes_of_le_value(bytes@);
                }
                Ok(get_le(bytes))
            },
            Err(error) => Err(error),
        }
    }

    pub fn read_u8(&mut self) -> (r: Result<u8, ColdIndexError>)
        requires
            old(self).wf(),
        ensures
            final(self).wf(),
            final(self).all() == old(self).all(),
            match number_at(old(self).all(), old(self).at(), 1) {
                Ok((value, next)) => r is Ok && r->Ok_0 == value && final(self).at() == next,
                Err(error) => r == Err::<u8, ColdIndexError>(error) && final(self).at() == old(self).at(),
            },
    {
        proof {
            wire::lemma_byte_limits();
        }
        match self.read_number(1) {
            Ok(value) => Ok(value as u8),
            Err(error) => Err(error),
        }
    }

    pub fn read_u16(&mut self) -> (r: Result<u16, ColdIndexError>)
        requires
            old(self).wf(),
        ensures
            final(self).wf(),
            final(self).all() == old(self).all(),
            match number_at(old(self).all(), old(self).at(), 2) {
                Ok((value, next)) => r is Ok && r->Ok_0 == value && final(self).at() == next,
                Err(error) => r == Err::<u16, ColdIndexError>(error) && final(self).at() == old(self).at(),
            },
    {
        proof {
            wire::lemma_byte_limits();
        }
        match self.read_number(2) {
            Ok(value) => Ok(value as u16),
            Err(error) => Err(error),
        }
    }

    pub fn read_u32(&mut self) -> (r: Result<u32, ColdIndexError>)
        requires
            old(self).wf(),
        ensures
            final(self).wf(),
            final(self).all() == old(self).all(),
            match number_at(old(self).all(), old(self).at(), 4) {
                Ok((value, next)) => r is Ok && r->Ok_0 == value && final(self).at() == next,
                Err(error) => r == Err::<u32, ColdIndexError>(error) && final(self).at() == old(self).at(),
            },
    {
        proof {
            wire::lemma_byte_limits();
        }
        match self.read_number(4) {
            Ok(value) => Ok(value as u32),
            Err(error) => Err(error),
        }
    }

    pub fn read_u64(&mut self) -> (r: Result<u64, ColdIndexError>)
        requires
            old(self).wf(),
        ensures
            final(self).wf(),
            final(self).all() == old(self).all(),
            match number_at(old(self).all(), old(self).at(), 8) {
                Ok((value, next)) => r is Ok && r->Ok_0 == value && final(self).at() == next,
                Err(error) => r == Err::<u64, ColdIndexError>(error) && final(self).at() == old(self).at(),
            },
    {
        self.read_number(8)
    }

    pub fn read_string(&mut self) -> (r: Result<String, ColdIndexError>)
        requires
            old(self).wf(),
        ensures
            final(self).wf(),
            final(self).all() == old(self).all(),
            match text_at(old(self).all(), old(self).at()) {
                Ok((value, next)) => r is Ok && r->Ok_0@ == value && final(self).at() == next,
                Err(error) => r == Err::<String, ColdIndexError>(error),
            },
    {
        let len = match self.read_u32() {
            Ok(len) => len as usize,
            Err(error) => {
                return Err(error);
            },
        };
        let bytes = match self.read_exact(len) {
            Ok(bytes) => bytes,
            Err(error) => {
                return Err(error);
            },
        };
        match string_from_utf8(vstd::slice::slice_to_vec(bytes)) {
            Ok(text) => Ok(text),
            Err((valid_up_to, error_len)) => Err(
                ColdIndexError::InvalidUtf8 { valid_up_to, error_len },
            ),
        }
    }
}


fn read_entry(cursor: &mut Cursor, tag: u8, wrong: ColdIndexError) -> (r: Result<
    ObjectPayloadRef,
    ColdIndexError,
>)
    requires
        old(cursor).wf(),
    ensures
        final(cursor).wf(),
        final(cursor).all() == old(cursor).all(),
        match entry_at(old(cursor).all(), old(cursor).at(), tag, wrong) {
            Ok((entry, next)) => r is Ok && r->Ok_0@ == entry && final(cursor).at() == next,
            Err(error) => r == Err::<ObjectPayloadRef, ColdIndexError>(error),
        },
{
    match cursor.read_u8() {
        Ok(found) => {
            if found != tag {
                return Err(wrong);
            }
        },
        Err(error) => {
            return Err(error);
        },
    }
    let start_offset: u64 = match cursor.read_u64() {
        Ok(value) => value,
        Err(error) => {
            return Err(error);
        },
    };
    let end_offset: u64 = match cursor.read_u64() {
        Ok(value) => value,
        Err(error) => {
            return Err(error);
        },
    };
    let object_size: u64 = match cursor.read_u64() {
        Ok(value) => value,
        Err(error) => {
            return Err(error);
        },
    };
    match cursor.read_string() {
        Ok(s3_path) => Ok(ObjectPayloadRef { start_offset, end_offset, s3_path, object_size }),
        Err(error) => Err(error),
    }
}

fn read_chunks(cursor: &mut Cursor) -> (r: Result<Vec<ColdChunkRef>, ColdIndexError>)
    requires
        old(cursor).wf(),
    ensures
        final(cursor).wf(),
        final(cursor).all() == old(cursor).all(),
        match entry_list_at(
            old(cursor).all(),
            old(cursor).at(),
            COLD_INDEX_ENTRY_COLD_CHUNK,
            ColdIndexError::ExpectedColdChunk,
        ) {
            Ok((entries, next)) => r is Ok && refs::chunk_spans(r->Ok_0@) == entries && final(cursor).at() == next,
            Err(error) => r == Err::<Vec<ColdChunkRef>, ColdIndexError>(error),
        },
{
    let count: u32 = match cursor.read_u32() {
        Ok(value) => value,
        Err(error) => {
            return Err(error);
        },
    };
    let ghost bytes = cursor.all();
    let ghost at = cursor.at();
    let mut chunks: Vec<ColdChunkRef> = Vec::new();
    let mut i: u32 = 0;
    assert(refs::chunk_spans(chunks@) =~= Seq::empty());
    while i < count
        invariant
            i <= count,
            cursor.wf(),
            cursor.all() == bytes,
            bytes == old(cursor).all(),
            entry_list_at(
                old(cursor).all(),
                old(cursor).at(),
                COLD_INDEX_ENTRY_COLD_CHUNK,
                ColdIndexError::ExpectedColdChunk,
            ) == entries_at(
                bytes,
                at,
                COLD_INDEX_ENTRY_COLD_CHUNK,
                ColdIndexError::ExpectedColdChunk,
                count as nat,
            ),
            entries_at(
                bytes,
                at,
                COLD_INDEX_ENTRY_COLD_CHUNK,
                ColdIndexError::ExpectedColdChunk,
                i as nat,
            ) == Ok::<(Seq<ObjectSpan>, nat), ColdIndexError>(
                (refs::chunk_spans(chunks@), cursor.at()),
            ),
        decreases count - i,
    {
        proof {
            lemma_entries_prefix(
                bytes,
                at,
                COLD_INDEX_ENTRY_COLD_CHUNK,
                ColdIndexError::ExpectedColdChunk,
                (i + 1) as nat,
                count as nat,
            );
        }
        let ghost before = chunks@;
        match read_entry(cursor, COLD_INDEX_ENTRY_COLD_CHUNK, ColdIndexError::ExpectedColdChunk) {
            Ok(entry) => {
                chunks.push(
                    ColdChunkRef {
                        start_offset: entry.start_offset,
                        end_offset: entry.end_offset,
                        s3_path: entry.s3_path,
                        object_size: entry.object_size,
                    },
                );
                assert(refs::chunk_spans(chunks@) =~= refs::chunk_spans(before).push(
                    chunks@.last()@,
                ));
            },
            Err(error) => {
                return Err(error);
            },
        }
        i = i + 1;
    }
    Ok(chunks)
}

fn read_segments(cursor: &mut Cursor) -> (r: Result<Vec<ObjectPayloadRef>, ColdIndexError>)
    requires
        old(cursor).wf(),
    ensures
        final(cursor).wf(),
        final(cursor).all() == old(cursor).all(),
        match entry_list_at(
            old(cursor).all(),
            old(cursor).at(),
            COLD_INDEX_ENTRY_EXTERNAL_SEGMENT,
            ColdIndexError::ExpectedExternalSegment,
        ) {
            Ok((entries, next)) => r is Ok && refs::object_spans(r->Ok_0@) == entries && final(cursor).at() == next,
            Err(error) => r == Err::<Vec<ObjectPayloadRef>, ColdIndexError>(error),
        },
{
    let count: u32 = match cursor.read_u32() {
        Ok(value) => value,
        Err(error) => {
            return Err(error);
        },
    };
    let ghost bytes = cursor.all();
    let ghost at = cursor.at();
    let mut objects: Vec<ObjectPayloadRef> = Vec::new();
    let mut i: u32 = 0;
    assert(refs::object_spans(objects@) =~= Seq::empty());
    while i < count
        invariant
            i <= count,
            cursor.wf(),
            cursor.all() == bytes,
            bytes == old(cursor).all(),
            entry_list_at(
                old(cursor).all(),
                old(cursor).at(),
                COLD_INDEX_ENTRY_EXTERNAL_SEGMENT,
                ColdIndexError::ExpectedExternalSegment,
            ) == entries_at(
                bytes,
                at,
                COLD_INDEX_ENTRY_EXTERNAL_SEGMENT,
                ColdIndexError::ExpectedExternalSegment,
                count as nat,
            ),
            entries_at(
                bytes,
                at,
                COLD_INDEX_ENTRY_EXTERNAL_SEGMENT,
                ColdIndexError::ExpectedExternalSegment,
                i as nat,
            ) == Ok::<(Seq<ObjectSpan>, nat), ColdIndexError>(
                (refs::object_spans(objects@), cursor.at()),
            ),
        decreases count - i,
    {
        proof {
            lemma_entries_prefix(
                bytes,
                at,
                COLD_INDEX_ENTRY_EXTERNAL_SEGMENT,
                ColdIndexError::ExpectedExternalSegment,
                (i + 1) as nat,
                count as nat,
            );
        }
        let ghost before = objects@;
        match read_entry(
            cursor,
            COLD_INDEX_ENTRY_EXTERNAL_SEGMENT,
            ColdIndexError::ExpectedExternalSegment,
        ) {
            Ok(entry) => {
                objects.push(entry);
                assert(refs::object_spans(objects@) =~= refs::object_spans(before).push(entry@));
            },
            Err(error) => {
                return Err(error);
            },
        }
        i = i + 1;
    }
    Ok(objects)
}

/// An error within the first entries is the error of the whole list.
proof fn lemma_entries_prefix(
    bytes: Seq<u8>,
    at: nat,
    tag: u8,
    wrong: ColdIndexError,
    some: nat,
    count: nat,
)
    requires
        some <= count,
    ensures
        entries_at(bytes, at, tag, wrong, some) is Err ==> entries_at(bytes, at, tag, wrong, count)
            == entries_at(bytes, at, tag, wrong, some),
    decreases count,
{
    if some < count {
        lemma_entries_prefix(bytes, at, tag, wrong, some, (count - 1) as nat);
    }
}

fn is_magic(bytes: &[u8]) -> (r: bool)
    requires
        bytes@.len() == 8,
    ensures
        r == (bytes@ == page_magic()),
{
    let r = bytes[0] == 0x55 && bytes[1] == 0x43 && bytes[2] == 0x49 && bytes[3] == 0x44
        && bytes[4] == 0x58 && bytes[5] == 0x30 && bytes[6] == 0x30 && bytes[7] == 0x31;
    proof {
        let magic = page_magic();
        if r {
            assert(bytes@ =~= magic);
        } else {
            assert(magic[0] == 0x55 && magic[1] == 0x43 && magic[2] == 0x49 && magic[3] == 0x44
                && magic[4] == 0x58 && magic[5] == 0x30 && magic[6] == 0x30 && magic[7] == 0x31);
        }
    }
    r
}

fn read_frame<'a>(bytes: &'a [u8]) -> (r: Result<&'a [u8], ColdIndexError>)
    ensures
        match framed_body(bytes@) {
            Ok(body) => r is Ok && r->Ok_0@ == body,
            Err(error) => r == Err::<&'a [u8], ColdIndexError>(error),
        },
{
    let mut cursor = Cursor::new(bytes);
    match cursor.read_exact(8) {
        Ok(magic) => {
            if !is_magic(magic) {
                return Err(ColdIndexError::InvalidMagic);
            }
        },
        Err(error) => {
            return Err(error);
        },
    }
    match cursor.read_u16() {
        Ok(version) => {
            if version != COLD_INDEX_PAGE_VERSION {
                return Err(ColdIndexError::UnsupportedVersion { version });
            }
        },
        Err(error) => {
            return Err(error);
        },
    }
    let body_len: usize = match cursor.read_u32() {
        Ok(len) => len as usize,
        Err(error) => {
            return Err(error);
        },
    };
    let body = match cursor.read_exact(body_len) {
        Ok(body) => body,
        Err(error) => {
            return Err(error);
        },
    };
    let expected_checksum: u64 = match cursor.read_u64() {
        Ok(value) => value,
        Err(error) => {
            return Err(error);
        },
    };
    if cursor.remaining() != 0 {
        return Err(ColdIndexError::TrailingBytes);
    }
    if checksum64(body) != expected_checksum {
        return Err(ColdIndexError::ChecksumMismatch);
    }
    Ok(body)
}

fn read_key(cursor: &mut Cursor) -> (r: Result<ColdIndexPageKey, ColdIndexError>)
    requires
        old(cursor).wf(),
    ensures
        final(cursor).wf(),
        final(cursor).all() == old(cursor).all(),
        match key_at(old(cursor).all(), old(cursor).at()) {
            Ok((key, next)) => r is Ok && r->Ok_0@ == key && final(cursor).at() == next,
            Err(error) => r == Err::<ColdIndexPageKey, ColdIndexError>(error),
        },
{
    let bucket_id = match cursor.read_string() {
        Ok(value) => value,
        Err(error) => {
            return Err(error);
        },
    };
    let stream_id = match cursor.read_string() {
        Ok(value) => value,
        Err(error) => {
            return Err(error);
        },
    };
    let generation: u64 = match cursor.read_u64() {
        Ok(value) => value,
        Err(error) => {
            return Err(error);
        },
    };
    match cursor.read_u64() {
        Ok(page_id) => Ok(
            ColdIndexPageKey {
                stream_id: BucketStreamId { bucket_id, stream_id },
                generation,
                page_id,
            },
        ),
        Err(error) => Err(error),
    }
}

/// The page stored in `bytes`, which must belong to `key`.
pub fn decode_page(key: &ColdIndexPageKey, bytes: &[u8]) -> (r: Result<
    ColdIndexPage,
    ColdIndexError,
>)
    ensures
        match stored_page(key@, bytes@) {
            Ok(page) => r is Ok && r->Ok_0@ == page,
            Err(error) => r == Err::<ColdIndexPage, ColdIndexError>(error),
        },
{
    let body = match read_frame(bytes) {
        Ok(body) => body,
        Err(error) => {
            return Err(error);
        },
    };
    let mut cursor = Cursor::new(body);
    match read_key(&mut cursor) {
        Ok(found) => {
            if !found.same(key) {
                return Err(ColdIndexError::KeyMismatch);
            }
        },
        Err(error) => {
            return Err(error);
        },
    }
    let start_offset: u64 = match cursor.read_u64() {
        Ok(value) => value,
        Err(error) => {
            return Err(error);
        },
    };
    let end_offset: u64 = match cursor.read_u64() {
        Ok(value) => value,
        Err(error) => {
            return Err(error);
        },
    };
    let cold_chunks = match read_chunks(&mut cursor) {
        Ok(chunks) => chunks,
        Err(error) => {
            return Err(error);
        },
    };
    let external_segments = match read_segments(&mut cursor) {
        Ok(objects) => objects,
        Err(error) => {
            return Err(error);
        },
    };
    if cursor.remaining() != 0 {
        return Err(ColdIndexError::BodyTrailingBytes);
    }
    Ok(ColdIndexPage { start_offset, end_offset, cold_chunks, external_segments })
}

} // verus!
