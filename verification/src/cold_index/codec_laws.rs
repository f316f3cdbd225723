//! Laws of the stored page form: it can be read back, and only it is accepted.

use vstd::prelude::*;
use vstd::utf8;
use crate::cold_index::codec;
use crate::cold_index::codec::{
    ColdIndexError, COLD_INDEX_ENTRY_COLD_CHUNK, COLD_INDEX_ENTRY_EXTERNAL_SEGMENT,
    COLD_INDEX_PAGE_VERSION,
};
use crate::cold_index::{Page, PageKey};
use crate::refs::ObjectSpan;
use crate::wire;

verus! {

/// Whether `piece` stands in `bytes` from `at` on.
pub open spec fn holds_at(bytes: Seq<u8>, at: nat, piece: Seq<u8>) -> bool {
    &&& at + piece.len() <= bytes.len()
    &&& bytes.subrange(at as int, (at + piece.len()) as int) == piece
}

proof fn lemma_holds_concat(bytes: Seq<u8>, at: nat, first: Seq<u8>, second: Seq<u8>)
    ensures
        holds_at(bytes, at, first + second) <==> holds_at(bytes, at, first) && holds_at(
            bytes,
            at + first.len(),
            second,
        ),
{
    let both = first + second;
    let middle = (at + first.len()) as int;
    let end = (at + both.len()) as int;
    if holds_at(bytes, at, both) {
        let part = bytes.subrange(at as int, end);
        assert(bytes.subrange(at as int, middle) =~= part.subrange(0, first.len() as int));
        assert(bytes.subrange(middle, end) =~= part.subrange(
            first.len() as int,
            both.len() as int,
        ));
        assert(both.subrange(0, first.len() as int) =~= first);
        assert(both.subrange(first.len() as int, both.len() as int) =~= second);
    }
    if holds_at(bytes, at, first) && holds_at(bytes, at + first.len(), second) {
        assert(bytes.subrange(at as int, end) =~= bytes.subrange(at as int, middle)
            + bytes.subrange(middle, end));
    }
}

proof fn lemma_number(bytes: Seq<u8>, at: nat, width: nat)
    ensures
        codec::number_at(bytes, at, width) matches Ok((value, next)) ==> {
            &&& next == at + width
            &&& value < wire::byte_limit(width)
            &&& holds_at(bytes, at, wire::le_bytes(value, width))
        },
{
    if let Ok((taken, _)) = codec::take_at(bytes, at, width) {
        wire::lemma_le_bytes_of_le_value(taken);
    }
}

proof fn lemma_number_back(bytes: Seq<u8>, at: nat, value: nat, width: nat)
    requires
        bytes.len() <= usize::MAX,
        value < wire::byte_limit(width),
        holds_at(bytes, at, wire::le_bytes(value, width)),
    ensures
        codec::number_at(bytes, at, width) == Ok::<(nat, nat), ColdIndexError>(
            (value, at + width),
        ),
{
    wire::lemma_le_value_of_le_bytes(value, width);
}

proof fn lemma_text(bytes: Seq<u8>, at: nat)
    ensures
        codec::text_at(bytes, at) matches Ok((value, next)) ==> {
            &&& utf8::encode_utf8(value).len() <= u32::MAX
            &&& next == at + codec::text_bytes(value).len()
            &&& holds_at(bytes, at, codec::text_bytes(value))
        },
{
    lemma_number(bytes, at, 4);
    wire::lemma_byte_limits();
    if let Ok((len, next)) = codec::number_at(bytes, at, 4) {
        if let Ok((taken, _)) = codec::take_at(bytes, next, len) {
            if utf8::valid_utf8(taken) {
                let value = utf8::decode_utf8(taken);
                utf8::decode_utf8_encode_utf8(taken);
                assert(utf8::encode_utf8(value) == taken);
                wire::lemma_le_bytes_len(len, 4);
                lemma_holds_concat(bytes, at, wire::le_bytes(len, 4), taken);
            }
        }
    }
}

proof fn lemma_text_back(bytes: Seq<u8>, at: nat, value: Seq<char>)
    requires
        bytes.len() <= usize::MAX,
        utf8::encode_utf8(value).len() <= u32::MAX,
        holds_at(bytes, at, codec::text_bytes(value)),
    ensures
        codec::text_at(bytes, at) == Ok::<(Seq<char>, nat), ColdIndexError>(
            (value, at + codec::text_bytes(value).len()),
        ),
{
    let encoded = utf8::encode_utf8(value);
    wire::lemma_byte_limits();
    wire::lemma_le_bytes_len(encoded.len(), 4);
    lemma_holds_concat(bytes, at, wire::le_bytes(encoded.len(), 4), encoded);
    lemma_number_back(bytes, at, encoded.len(), 4);
    utf8::encode_utf8_valid_utf8(value);
    utf8::encode_utf8_decode_utf8(value);
}

proof fn lemma_tag_bytes(tag: u8)
    ensures
        wire::le_bytes(tag as nat, 1) == seq![tag],
{
    assert(wire::le_bytes(tag as nat / 256, 0) =~= Seq::empty());
    assert(wire::le_bytes(tag as nat, 1) =~= seq![tag]);
}

proof fn lemma_entry_split(bytes: Seq<u8>, at: nat, tag: u8, entry: ObjectSpan)
    ensures
        codec::entry_bytes(tag, entry).len() == 25 + codec::text_bytes(entry.s3_path).len(),
        holds_at(bytes, at, codec::entry_bytes(tag, entry)) <==> {
            &&& holds_at(bytes, at, wire::le_bytes(tag as nat, 1))
            &&& holds_at(bytes, at + 1, wire::le_bytes(entry.start_offset as nat, 8))
            &&& holds_at(bytes, at + 9, wire::le_bytes(entry.end_offset as nat, 8))
            &&& holds_at(bytes, at + 17, wire::le_bytes(entry.object_size as nat, 8))
            &&& holds_at(bytes, at + 25, codec::text_bytes(entry.s3_path))
        },
{
    let start = wire::le_bytes(entry.start_offset as nat, 8);
    let end = wire::le_bytes(entry.end_offset as nat, 8);
    let size = wire::le_bytes(entry.object_size as nat, 8);
    let path = codec::text_bytes(entry.s3_path);
    wire::lemma_le_bytes_len(entry.start_offset as nat, 8);
    wire::lemma_le_bytes_len(entry.end_offset as nat, 8);
    wire::lemma_le_bytes_len(entry.object_size as nat, 8);
    lemma_tag_bytes(tag);
    lemma_holds_concat(bytes, at, seq![tag] + start + end + size, path);
    lemma_holds_concat(bytes, at, seq![tag] + start + end, size);
    lemma_holds_concat(bytes, at, seq![tag] + start, end);
    lemma_holds_concat(bytes, at, seq![tag], start);
}

proof fn lemma_entry(bytes: Seq<u8>, at: nat, tag: u8, wrong: ColdIndexError)
    ensures
        codec::entry_at(bytes, at, tag, wrong) matches Ok((entry, next)) ==> {
            &&& next == at + codec::entry_bytes(tag, entry).len()
            &&& holds_at(bytes, at, codec::entry_bytes(tag, entry))
        },
{
    wire::lemma_byte_limits();
    lemma_number(bytes, at, 1);
    lemma_number(bytes, at + 1, 8);
    lemma_number(bytes, at + 9, 8);
    lemma_number(bytes, at + 17, 8);
    lemma_text(bytes, at + 25);
    if let Ok((entry, _)) = codec::entry_at(bytes, at, tag, wrong) {
        lemma_entry_split(bytes, at, tag, entry);
    }
}

proof fn lemma_entry_back(
    bytes: Seq<u8>,
    at: nat,
    tag: u8,
    wrong: ColdIndexError,
    entry: ObjectSpan,
)
    requires
        bytes.len() <= u32::MAX,
        holds_at(bytes, at, codec::entry_bytes(tag, entry)),
    ensures
        codec::entry_at(bytes, at, tag, wrong) == Ok::<(ObjectSpan, nat), ColdIndexError>(
            (entry, at + codec::entry_bytes(tag, entry).len()),
        ),
{
    wire::lemma_byte_limits();
    lemma_entry_split(bytes, at, tag, entry);
    lemma_number_back(bytes, at, tag as nat, 1);
    lemma_number_back(bytes, at + 1, entry.start_offset as nat, 8);
    lemma_number_back(bytes, at + 9, entry.end_offset as nat, 8);
    lemma_number_back(bytes, at + 17, entry.object_size as nat, 8);
    lemma_text_back(bytes, at + 25, entry.s3_path);
}

proof fn lemma_entries(bytes: Seq<u8>, at: nat, tag: u8, wrong: ColdIndexError, count: nat)
    requires
        at <= bytes.len(),
    ensures
        codec::entries_at(bytes, at, tag, wrong, count) matches Ok((entries, next)) ==> {
            &&& entries.len() == count
            &&& next == at + codec::entry_list_bytes(tag, entries).len()
            &&& holds_at(bytes, at, codec::entry_list_bytes(tag, entries))
        },
    decreases count,
{
    if count == 0 {
        assert(bytes.subrange(at as int, at as int) =~= Seq::<u8>::empty());
    } else {
        lemma_entries(bytes, at, tag, wrong, (count - 1) as nat);
        if let Ok((entries, next)) = codec::entries_at(bytes, at, tag, wrong, (count - 1) as nat) {
            lemma_entry(bytes, next, tag, wrong);
            if let Ok((entry, _)) = codec::entry_at(bytes, next, tag, wrong) {
                assert(entries.push(entry).drop_last() =~= entries);
                lemma_holds_concat(
                    bytes,
                    at,
                    codec::entry_list_bytes(tag, entries),
                    codec::entry_bytes(tag, entry),
                );
            }
        }
    }
}

proof fn lemma_entries_back(
    bytes: Seq<u8>,
    at: nat,
    tag: u8,
    wrong: ColdIndexError,
    entries: Seq<ObjectSpan>,
)
    requires
        bytes.len() <= u32::MAX,
        holds_at(bytes, at, codec::entry_list_bytes(tag, entries)),
    ensures
        codec::entries_at(bytes, at, tag, wrong, entries.len()) == Ok::<
            (Seq<ObjectSpan>, nat),
            ColdIndexError,
        >((entries, at + codec::entry_list_bytes(tag, entries).len())),
    decreases entries.len(),
{
    if entries.len() == 0 {
        assert(entries =~= Seq::empty());
    } else {
        let front = entries.drop_last();
        lemma_holds_concat(
            bytes,
            at,
            codec::entry_list_bytes(tag, front),
            codec::entry_bytes(tag, entries.last()),
        );
        lemma_entries_back(bytes, at, tag, wrong, front);
        lemma_entry_back(
            bytes,
            at + codec::entry_list_bytes(tag, front).len(),
            tag,
            wrong,
            entries.last(),
        );
        assert(front.push(entries.last()) =~= entries);
    }
}

proof fn lemma_key_split(bytes: Seq<u8>, at: nat, key: PageKey)
    ensures
        ({
            let bucket = codec::text_bytes(key.stream.bucket);
            let stream = codec::text_bytes(key.stream.stream);
            let at2 = at + bucket.len() + stream.len();
            &&& codec::key_bytes(key).len() == bucket.len() + stream.len() + 16
            &&& holds_at(bytes, at, codec::key_bytes(key)) <==> {
                &&& holds_at(bytes, at, bucket)
                &&& holds_at(bytes, at + bucket.len(), stream)
                &&& holds_at(bytes, at2, wire::le_bytes(key.generation as nat, 8))
                &&& holds_at(bytes, at2 + 8, wire::le_bytes(key.page_id as nat, 8))
            }
        }),
{
    let bucket = codec::text_bytes(key.stream.bucket);
    let stream = codec::text_bytes(key.stream.stream);
    let generation = wire::le_bytes(key.generation as nat, 8);
    let page_id = wire::le_bytes(key.page_id as nat, 8);
    wire::lemma_le_bytes_len(key.generation as nat, 8);
    wire::lemma_le_bytes_len(key.page_id as nat, 8);
    lemma_holds_concat(bytes, at, bucket + stream + generation, page_id);
    lemma_holds_concat(bytes, at, bucket + stream, generation);
    lemma_holds_concat(bytes, at, bucket, stream);
}

proof fn lemma_key(bytes: Seq<u8>, at: nat)
    ensures
        codec::key_at(bytes, at) matches Ok((key, next)) ==> {
            &&& next == at + codec::key_bytes(key).len()
            &&& holds_at(bytes, at, codec::key_bytes(key))
        },
{
    wire::lemma_byte_limits();
    if let Ok((key, _)) = codec::key_at(bytes, at) {
        let at1 = at + codec::text_bytes(key.stream.bucket).len();
        let at2 = at1 + codec::text_bytes(key.stream.stream).len();
        lemma_text(bytes, at);
        lemma_text(bytes, at1);
        lemma_number(bytes, at2, 8);
        lemma_number(bytes, at2 + 8, 8);
        lemma_key_split(bytes, at, key);
    }
}

proof fn lemma_key_back(bytes: Seq<u8>, at: nat, key: PageKey)
    requires
        bytes.len() <= u32::MAX,
        holds_at(bytes, at, codec::key_bytes(key)),
    ensures
        codec::key_at(bytes, at) == Ok::<(PageKey, nat), ColdIndexError>(
            (key, at + codec::key_bytes(key).len()),
        ),
{
    wire::lemma_byte_limits();
    lemma_key_split(bytes, at, key);
    let at1 = at + codec::text_bytes(key.stream.bucket).len();
    let at2 = at1 + codec::text_bytes(key.stream.stream).len();
    lemma_text_back(bytes, at, key.stream.bucket);
    lemma_text_back(bytes, at1, key.stream.stream);
    lemma_number_back(bytes, at2, key.generation as nat, 8);
    lemma_number_back(bytes, at2 + 8, key.page_id as nat, 8);
}

/// The offsets at which the parts of a body begin.
spec fn body_marks(key: PageKey, page: Page) -> (nat, nat, nat) {
    let head = codec::key_bytes(key).len();
    let chunks = codec::entry_list_bytes(COLD_INDEX_ENTRY_COLD_CHUNK, page.cold_chunks).len();
    let segments = codec::entry_list_bytes(
        COLD_INDEX_ENTRY_EXTERNAL_SEGMENT,
        page.external_segments,
    ).len();
    (head, head + 20 + chunks, head + 24 + chunks + segments)
}

proof fn lemma_body_split(body: Seq<u8>, key: PageKey, page: Page)
    ensures
        ({
            let (head, middle, end) = body_marks(key, page);
            &&& codec::body_bytes(key, page).len() == end
            &&& holds_at(body, 0, codec::body_bytes(key, page)) <==> {
                &&& holds_at(body, 0, codec::key_bytes(key))
                &&& holds_at(body, head, wire::le_bytes(page.start_offset as nat, 8))
                &&& holds_at(body, head + 8, wire::le_bytes(page.end_offset as nat, 8))
                &&& holds_at(body, head + 16, wire::le_bytes(page.cold_chunks.len(), 4))
                &&& holds_at(
                    body,
                    head + 20,
                    codec::entry_list_bytes(COLD_INDEX_ENTRY_COLD_CHUNK, page.cold_chunks),
                )
                &&& holds_at(body, middle, wire::le_bytes(page.external_segments.len(), 4))
                &&& holds_at(
                    body,
                    middle + 4,
                    codec::entry_list_bytes(
                        COLD_INDEX_ENTRY_EXTERNAL_SEGMENT,
                        page.external_segments,
                    ),
                )
            }
        }),
{
    let head = codec::key_bytes(key);
    let start = wire::le_bytes(page.start_offset as nat, 8);
    let end = wire::le_bytes(page.end_offset as nat, 8);
    let chunk_count = wire::le_bytes(page.cold_chunks.len(), 4);
    let chunks = codec::entry_list_bytes(COLD_INDEX_ENTRY_COLD_CHUNK, page.cold_chunks);
    let segment_count = wire::le_bytes(page.external_segments.len(), 4);
    let segments = codec::entry_list_bytes(
        COLD_INDEX_ENTRY_EXTERNAL_SEGMENT,
        page.external_segments,
    );
    wire::lemma_le_bytes_len(page.start_offset as nat, 8);
    wire::lemma_le_bytes_len(page.end_offset as nat, 8);
    wire::lemma_le_bytes_len(page.cold_chunks.len(), 4);
    wire::lemma_le_bytes_len(page.external_segments.len(), 4);
    lemma_holds_concat(
        body,
        0,
        head + start + end + chunk_count + chunks + segment_count,
        segments,
    );
    lemma_holds_concat(body, 0, head + start + end + chunk_count + chunks, segment_count);
    lemma_holds_concat(body, 0, head + start + end + chunk_count, chunks);
    lemma_holds_concat(body, 0, head + start + end, chunk_count);
    lemma_holds_concat(body, 0, head + start, end);
    lemma_holds_concat(body, 0, head, start);
}

proof fn lemma_body(key: PageKey, body: Seq<u8>)
    ensures
        codec::body_page(key, body) matches Ok(page) ==> body == codec::body_bytes(key, page),
{
    if let Ok(page) = codec::body_page(key, body) {
        wire::lemma_byte_limits();
        lemma_key(body, 0);
        let (head, middle, end) = body_marks(key, page);
        lemma_number(body, head, 8);
        lemma_number(body, head + 8, 8);
        lemma_number(body, head + 16, 4);
        let count = codec::number_at(body, head + 16, 4)->Ok_0.0;
        lemma_entries(
            body,
            head + 20,
            COLD_INDEX_ENTRY_COLD_CHUNK,
            ColdIndexError::ExpectedColdChunk,
            count,
        );
        lemma_number(body, middle, 4);
        let count = codec::number_at(body, middle, 4)->Ok_0.0;
        lemma_entries(
            body,
            middle + 4,
            COLD_INDEX_ENTRY_EXTERNAL_SEGMENT,
            ColdIndexError::ExpectedExternalSegment,
            count,
        );
        lemma_body_split(body, key, page);
        assert(body.subrange(0, body.len() as int) =~= body);
    }
}

proof fn lemma_body_read(key: PageKey, page: Page, body: Seq<u8>)
    requires
        body.len() <= u32::MAX,
        body.len() == body_marks(key, page).2,
        page.cold_chunks.len() <= u32::MAX,
        page.external_segments.len() <= u32::MAX,
        holds_at(body, 0, codec::body_bytes(key, page)),
    ensures
        codec::body_page(key, body) == Ok::<Page, ColdIndexError>(page),
{
    wire::lemma_byte_limits();
    lemma_body_split(body, key, page);
    let (head, middle, end) = body_marks(key, page);
    lemma_key_back(body, 0, key);
    lemma_number_back(body, head, page.start_offset as nat, 8);
    lemma_number_back(body, head + 8, page.end_offset as nat, 8);
    lemma_number_back(body, head + 16, page.cold_chunks.len(), 4);
    lemma_entries_back(
        body,
        head + 20,
        COLD_INDEX_ENTRY_COLD_CHUNK,
        ColdIndexError::ExpectedColdChunk,
        page.cold_chunks,
    );
    lemma_number_back(body, middle, page.external_segments.len(), 4);
    lemma_entries_back(
        body,
        middle + 4,
        COLD_INDEX_ENTRY_EXTERNAL_SEGMENT,
        ColdIndexError::ExpectedExternalSegment,
        page.external_segments,
    );
}

proof fn lemma_body_back(key: PageKey, page: Page)
    requires
        codec::page_fits(key, page),
    ensures
        codec::body_page(key, codec::body_bytes(key, page)) == Ok::<Page, ColdIndexError>(page),
{
    let body = codec::body_bytes(key, page);
    codec::lemma_page_fits(key, page);
    lemma_body_split(body, key, page);
    assert(body.subrange(0, body.len() as int) =~= body);
    lemma_body_read(key, page, body);
}

/// The frame around a body.
pub open spec fn frame_bytes(body: Seq<u8>, checksum: u64) -> Seq<u8> {
    codec::page_magic() + wire::le_bytes(COLD_INDEX_PAGE_VERSION as nat, 2) + wire::le_bytes(
        body.len(),
        4,
    ) + body + wire::le_bytes(checksum as nat, 8)
}

proof fn lemma_frame_split(bytes: Seq<u8>, body: Seq<u8>, checksum: u64)
    ensures
        frame_bytes(body, checksum).len() == body.len() + 22,
        holds_at(bytes, 0, frame_bytes(body, checksum)) <==> {
            &&& holds_at(bytes, 0, codec::page_magic())
            &&& holds_at(bytes, 8, wire::le_bytes(COLD_INDEX_PAGE_VERSION as nat, 2))
            &&& holds_at(bytes, 10, wire::le_bytes(body.len(), 4))
            &&& holds_at(bytes, 14, body)
            &&& holds_at(bytes, 14 + body.len(), wire::le_bytes(checksum as nat, 8))
        },
{
    let magic = codec::page_magic();
    let version = wire::le_bytes(COLD_INDEX_PAGE_VERSION as nat, 2);
    let len = wire::le_bytes(body.len(), 4);
    let sum = wire::le_bytes(checksum as nat, 8);
    wire::lemma_le_bytes_len(COLD_INDEX_PAGE_VERSION as nat, 2);
    wire::lemma_le_bytes_len(body.len(), 4);
    wire::lemma_le_bytes_len(checksum as nat, 8);
    lemma_holds_concat(bytes, 0, magic + version + len + body, sum);
    lemma_holds_concat(bytes, 0, magic + version + len, body);
    lemma_holds_concat(bytes, 0, magic + version, len);
    lemma_holds_concat(bytes, 0, magic, version);
}

proof fn lemma_frame(bytes: Seq<u8>)
    ensures
        codec::framed_body(bytes) matches Ok(body) ==> {
            &&& body.len() <= u32::MAX
            &&& bytes == frame_bytes(body, codec::fnv64(body))
        },
{
    if let Ok(body) = codec::framed_body(bytes) {
        wire::lemma_byte_limits();
        lemma_number(bytes, 8, 2);
        lemma_number(bytes, 10, 4);
        lemma_number(bytes, 14 + body.len(), 8);
        lemma_frame_split(bytes, body, codec::fnv64(body));
        assert(bytes.subrange(0, bytes.len() as int) =~= bytes);
    }
}

proof fn lemma_frame_read(bytes: Seq<u8>, body: Seq<u8>, checksum: u64)
    requires
        body.len() <= u32::MAX,
        bytes.len() == body.len() + 22,
        bytes.len() <= usize::MAX,
        holds_at(bytes, 0, frame_bytes(body, checksum)),
    ensures
        codec::framed_body(bytes) == if checksum == codec::fnv64(body) {
            Ok::<Seq<u8>, ColdIndexError>(body)
        } else {
            Err(ColdIndexError::ChecksumMismatch)
        },
{
    wire::lemma_byte_limits();
    lemma_frame_split(bytes, body, checksum);
    lemma_number_back(bytes, 8, COLD_INDEX_PAGE_VERSION as nat, 2);
    lemma_number_back(bytes, 10, body.len(), 4);
    lemma_number_back(bytes, 14 + body.len(), checksum as nat, 8);
}

proof fn lemma_frame_back(body: Seq<u8>, checksum: u64)
    requires
        body.len() <= u32::MAX,
        body.len() + 22 <= usize::MAX,
    ensures
        codec::framed_body(frame_bytes(body, checksum)) == if checksum == codec::fnv64(body) {
            Ok::<Seq<u8>, ColdIndexError>(body)
        } else {
            Err(ColdIndexError::ChecksumMismatch)
        },
{
    let bytes = frame_bytes(body, checksum);
    lemma_frame_split(bytes, body, checksum);
    assert(bytes.subrange(0, bytes.len() as int) =~= bytes);
    lemma_frame_read(bytes, body, checksum);
}

/// A stored page reads back as the page that was stored.
pub proof fn law_page_round_trip(key: PageKey, page: Page)
    requires
        codec::page_fits(key, page),
    ensures
        codec::stored_page(key, codec::page_bytes(key, page)) == Ok::<Page, ColdIndexError>(page),
{
    let body = codec::body_bytes(key, page);
    lemma_frame_split(Seq::empty(), body, codec::fnv64(body));
    lemma_frame_back(body, codec::fnv64(body));
    lemma_body_back(key, page);
}

/// Only the stored form of a page is accepted: bytes from which a page is read
/// are the bytes that the page is stored as.
pub proof fn law_page_form_is_unique(key: PageKey, bytes: Seq<u8>)
    ensures
        codec::stored_page(key, bytes) matches Ok(page) ==> bytes == codec::page_bytes(key, page),
{
    lemma_frame(bytes);
    if let Ok(body) = codec::framed_body(bytes) {
        lemma_body(key, body);
    }
}

/// A page stored under one key is refused under every other key.
pub proof fn law_page_is_bound_to_its_key(key: PageKey, page: Page, other: PageKey)
    requires
        codec::page_fits(key, page),
        other != key,
    ensures
        codec::stored_page(other, codec::page_bytes(key, page)) == Err::<Page, ColdIndexError>(
            ColdIndexError::KeyMismatch,
        ),
{
    let body = codec::body_bytes(key, page);
    lemma_frame_split(Seq::empty(), body, codec::fnv64(body));
    lemma_frame_back(body, codec::fnv64(body));
    assert(body.subrange(0, body.len() as int) =~= body);
    lemma_body_split(body, key, page);
    lemma_key_back(body, 0, key);
}

/// A stored page whose checksum was changed is refused.
pub proof fn law_changed_checksum_is_refused(key: PageKey, page: Page, checksum: u64)
    requires
        codec::page_fits(key, page),
        checksum != codec::fnv64(codec::body_bytes(key, page)),
    ensures
        codec::stored_page(key, frame_bytes(codec::body_bytes(key, page), checksum)) == Err::<
            Page,
            ColdIndexError,
        >(ColdIndexError::ChecksumMismatch),
{
    let body = codec::body_bytes(key, page);
    lemma_frame_split(Seq::empty(), body, codec::fnv64(body));
    lemma_frame_back(body, checksum);
}

/// Multiplying by the prime of the hash tells numbers apart.
proof fn lemma_prime_tells_apart(x: u64, y: u64)
    requires
        (x * codec::FNV64_PRIME) % 0x1_0000_0000_0000_0000 == (y * codec::FNV64_PRIME)
            % 0x1_0000_0000_0000_0000,
    ensures
        x == y,
{
    let modulus = 0x1_0000_0000_0000_0000int;
    let apart = x - y;
    let quotient = (x * codec::FNV64_PRIME) / modulus - (y * codec::FNV64_PRIME) / modulus;
    assert(apart * 0x0000_0100_0000_01b3 == quotient * 0x1_0000_0000_0000_0000);
    // The prime has an inverse: their product is one more than a multiple of the modulus.
    let factor = quotient * 0xce96_5057_aff6_957b - apart * 887285111055;
    assert(apart == factor * 0x1_0000_0000_0000_0000);
}

/// One step of the hash tells hashes apart, and bytes.
proof fn lemma_step_tells_apart(first: u64, second: u64, a: u8, b: u8)
    requires
        codec::fnv_step(first, a) == codec::fnv_step(second, b),
    ensures
        a == b ==> first == second,
        first == second ==> a == b,
{
    let x = first ^ (a as u64);
    let y = second ^ (b as u64);
    lemma_prime_tells_apart(x, y);
    assert(first ^ (a as u64) == second ^ (b as u64) && a == b ==> first == second)
        by (bit_vector);
    assert(first ^ (a as u64) == second ^ (b as u64) && first == second ==> a == b)
        by (bit_vector);
}

/// One changed byte changes the hash.
pub proof fn law_hash_shows_a_changed_byte(bytes: Seq<u8>, at: int, byte: u8)
    requires
        0 <= at < bytes.len(),
        byte != bytes[at],
    ensures
        codec::fnv64(bytes.update(at, byte)) != codec::fnv64(bytes),
    decreases bytes.len(),
{
    let changed = bytes.update(at, byte);
    let front = bytes.drop_last();
    if at < bytes.len() - 1 {
        law_hash_shows_a_changed_byte(front, at, byte);
        assert(changed.drop_last() =~= front.update(at, byte));
    } else {
        assert(changed.drop_last() =~= front);
    }
    if codec::fnv64(changed) == codec::fnv64(bytes) {
        lemma_step_tells_apart(
            codec::fnv64(changed.drop_last()),
            codec::fnv64(front),
            changed.last(),
            bytes.last(),
        );
    }
}

/// Two frames that agree in their first bytes are equally long.
proof fn lemma_frame_len(body: Seq<u8>, other: Seq<u8>)
    requires
        body.len() <= u32::MAX,
        other.len() <= u32::MAX,
        frame_bytes(body, codec::fnv64(body)).take(14) == frame_bytes(
            other,
            codec::fnv64(other),
        ).take(14),
    ensures
        body.len() == other.len(),
{
    let bytes = frame_bytes(body, codec::fnv64(body));
    let others = frame_bytes(other, codec::fnv64(other));
    lemma_frame_split(bytes, body, codec::fnv64(body));
    lemma_frame_split(others, other, codec::fnv64(other));
    assert(bytes.subrange(0, bytes.len() as int) =~= bytes);
    assert(others.subrange(0, others.len() as int) =~= others);
    wire::lemma_byte_limits();
    wire::lemma_le_value_of_le_bytes(body.len(), 4);
    wire::lemma_le_value_of_le_bytes(other.len(), 4);
    assert(bytes.subrange(10, 14) =~= bytes.take(14).subrange(10, 14));
    assert(others.subrange(10, 14) =~= others.take(14).subrange(10, 14));
}

/// A stored page that was cut short is refused.
pub proof fn law_cut_page_is_refused(key: PageKey, page: Page, len: int)
    requires
        codec::page_fits(key, page),
        0 <= len < codec::page_bytes(key, page).len(),
    ensures
        codec::stored_page(key, codec::page_bytes(key, page).take(len)) is Err,
{
    let whole = codec::page_bytes(key, page);
    let body = codec::body_bytes(key, page);
    let cut = whole.take(len);
    lemma_frame(cut);
    lemma_frame_split(whole, body, codec::fnv64(body));
    if let Ok(other) = codec::framed_body(cut) {
        lemma_frame_split(cut, other, codec::fnv64(other));
        assert(cut.take(14) =~= whole.take(14));
        lemma_frame_len(body, other);
    }
}

/// A stored page with bytes added behind it is refused.
pub proof fn law_extended_page_is_refused(key: PageKey, page: Page, extra: Seq<u8>)
    requires
        codec::page_fits(key, page),
        extra.len() > 0,
    ensures
        codec::stored_page(key, codec::page_bytes(key, page) + extra) is Err,
{
    let whole = codec::page_bytes(key, page);
    let body = codec::body_bytes(key, page);
    let longer = whole + extra;
    lemma_frame(longer);
    lemma_frame_split(whole, body, codec::fnv64(body));
    if let Ok(other) = codec::framed_body(longer) {
        lemma_frame_split(longer, other, codec::fnv64(other));
        assert(longer.take(14) =~= whole.take(14));
        lemma_frame_len(body, other);
    }
}

/// The parts of a sound frame.
proof fn lemma_frame_parts(bytes: Seq<u8>, body: Seq<u8>, checksum: u64)
    requires
        bytes == frame_bytes(body, checksum),
    ensures
        bytes.len() == body.len() + 22,
        bytes.subrange(0, 8) == codec::page_magic(),
        bytes.subrange(8, 10) == wire::le_bytes(COLD_INDEX_PAGE_VERSION as nat, 2),
        bytes.subrange(10, 14) == wire::le_bytes(body.len(), 4),
        bytes.subrange(14, 14int + body.len()) == body,
        bytes.subrange(14int + body.len(), 22int + body.len()) == wire::le_bytes(checksum as nat, 8),
{
    lemma_frame_split(bytes, body, checksum);
    assert(bytes.subrange(0, bytes.len() as int) =~= bytes);
    wire::lemma_le_bytes_len(COLD_INDEX_PAGE_VERSION as nat, 2);
    wire::lemma_le_bytes_len(body.len(), 4);
    wire::lemma_le_bytes_len(checksum as nat, 8);
}

proof fn lemma_changed_head(body: Seq<u8>, at: int, byte: u8)
    requires
        0 <= at < 14,
        byte != frame_bytes(body, codec::fnv64(body))[at],
    ensures
        codec::framed_body(frame_bytes(body, codec::fnv64(body)).update(at, byte)) is Err,
{
    let whole = frame_bytes(body, codec::fnv64(body));
    let changed = whole.update(at, byte);
    lemma_frame(changed);
    lemma_frame_parts(whole, body, codec::fnv64(body));
    if let Ok(other) = codec::framed_body(changed) {
        lemma_frame_parts(changed, other, codec::fnv64(other));
        if at < 8 {
            assert(changed.subrange(0, 8)[at] == whole.subrange(0, 8)[at]);
        } else if at < 10 {
            assert(changed.subrange(8, 10)[at - 8] == whole.subrange(8, 10)[at - 8]);
        } else {
            assert(changed.subrange(10, 14)[at - 10] == whole.subrange(10, 14)[at - 10]);
        }
    }
}

proof fn lemma_changed_body(body: Seq<u8>, at: int, byte: u8)
    requires
        14 <= at < 14 + body.len(),
        byte != frame_bytes(body, codec::fnv64(body))[at],
    ensures
        codec::framed_body(frame_bytes(body, codec::fnv64(body)).update(at, byte)) is Err,
{
    let whole = frame_bytes(body, codec::fnv64(body));
    let changed = whole.update(at, byte);
    let end = (14 + body.len()) as int;
    lemma_frame(changed);
    lemma_frame_parts(whole, body, codec::fnv64(body));
    if let Ok(other) = codec::framed_body(changed) {
        lemma_frame_parts(changed, other, codec::fnv64(other));
        assert(whole.subrange(14, end)[at - 14] == whole[at]);
        assert(changed.subrange(14, end) =~= whole.subrange(14, end).update(at - 14, byte));
        law_hash_shows_a_changed_byte(body, at - 14, byte);
        wire::lemma_byte_limits();
        wire::lemma_le_value_of_le_bytes(codec::fnv64(body) as nat, 8);
        wire::lemma_le_value_of_le_bytes(codec::fnv64(other) as nat, 8);
        assert(changed.subrange(end, end + 8) =~= whole.subrange(end, end + 8));
    }
}

/// Changing the checksum of a frame gives the frame with another checksum.
proof fn lemma_changed_sum(body: Seq<u8>, at: int, byte: u8) -> (checksum: u64)
    requires
        14 + body.len() <= at < 22 + body.len(),
        byte != frame_bytes(body, codec::fnv64(body))[at],
    ensures
        checksum != codec::fnv64(body),
        frame_bytes(body, codec::fnv64(body)).update(at, byte) == frame_bytes(body, checksum),
{
    let whole = frame_bytes(body, codec::fnv64(body));
    let changed = whole.update(at, byte);
    let end = (14 + body.len()) as int;
    lemma_frame_parts(whole, body, codec::fnv64(body));
    let sum = changed.subrange(end, end + 8);
    wire::lemma_byte_limits();
    wire::lemma_le_bytes_of_le_value(sum);
    let checksum = wire::le_value(sum) as u64;
    let head = whole.take(end);
    assert(head =~= codec::page_magic() + wire::le_bytes(COLD_INDEX_PAGE_VERSION as nat, 2)
        + wire::le_bytes(body.len(), 4) + body);
    assert(changed =~= head + sum);
    assert(sum[at - end] != whole.subrange(end, end + 8)[at - end]);
    checksum
}

/// A stored page in which one byte was changed is refused; where the byte belongs to
/// the checksum, for its checksum.
pub proof fn law_changed_byte_is_refused(key: PageKey, page: Page, at: int, byte: u8)
    requires
        codec::page_fits(key, page),
        0 <= at < codec::page_bytes(key, page).len(),
        byte != codec::page_bytes(key, page)[at],
    ensures
        codec::stored_page(key, codec::page_bytes(key, page).update(at, byte)) is Err,
        at >= codec::page_bytes(key, page).len() - 8 ==> codec::stored_page(
            key,
            codec::page_bytes(key, page).update(at, byte),
        ) == Err::<Page, ColdIndexError>(ColdIndexError::ChecksumMismatch),
{
    let body = codec::body_bytes(key, page);
    lemma_frame_parts(codec::page_bytes(key, page), body, codec::fnv64(body));
    if at < 14 {
        lemma_changed_head(body, at, byte);
    } else if at < 14 + body.len() {
        lemma_changed_body(body, at, byte);
    } else {
        let checksum = lemma_changed_sum(body, at, byte);
        law_changed_checksum_is_refused(key, page, checksum);
    }
}

} // verus!
