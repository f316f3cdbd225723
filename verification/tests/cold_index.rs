//! Cold index pages: their stored form, the page store and the page cache.

use ursula_runtime::cold_index::cache::{intersect_object, object_segments, ColdIndexPageCache};
use ursula_runtime::cold_index::codec::{
    can_be_stored, checksum64, decode_page, encode_page, ColdIndexError, Cursor,
};
use ursula_runtime::cold_index::pages::{external_object, page_range, rollback_page, sort_entries};
use ursula_runtime::cold_index::store::{
    rollback_cold_index_pages, write_cold_chunk_index_pages,
    write_cold_chunk_index_pages_with_rollback, write_external_segment_index_pages,
    InMemoryColdIndexPageStore,
};
use ursula_runtime::cold_index::{ColdIndexPage, ColdIndexPageKey};
use ursula_runtime::ids::BucketStreamId;
use ursula_runtime::io_error::IoErrorKind;
use ursula_runtime::refs::{
    ColdChunkRef, ExternalPayloadRef, ObjectPayloadRef, StreamReadColdIndexSegment,
};

const PAGE_SPAN: u64 = 1_048_576;

fn key(page_id: u64) -> ColdIndexPageKey {
    ColdIndexPageKey {
        stream_id: BucketStreamId::new("benchcmp", "cold-index"),
        generation: 7,
        page_id,
    }
}

fn page(start_offset: u64, end_offset: u64) -> ColdIndexPage {
    ColdIndexPage {
        start_offset,
        end_offset,
        cold_chunks: vec![ColdChunkRef {
            start_offset,
            end_offset,
            s3_path: format!("benchcmp/cold-index/chunks/{start_offset:020}.bin"),
            object_size: end_offset - start_offset,
        }],
        external_segments: Vec::new(),
    }
}

fn chunk(start_offset: u64, end_offset: u64, path: &str) -> ColdChunkRef {
    ColdChunkRef {
        start_offset,
        end_offset,
        s3_path: path.to_owned(),
        object_size: end_offset - start_offset,
    }
}

#[test]
fn memory_store_round_trips_pages() {
    let mut store = InMemoryColdIndexPageStore::new();
    let key = key(1);
    let page = page(0, 128);

    assert_eq!(
        key.path(),
        "benchcmp/cold-index/cold-index/00000000000000000007/00000000000000000001.idx"
    );
    assert_eq!(store.get_page(&key).expect("get missing"), None);
    store.put_page(&key, &page).expect("put page");
    assert_eq!(store.get_page(&key).expect("get page"), Some(page.clone()));
    assert!(page.covers(127));
    assert!(!page.covers(128));
}

#[test]
fn rollback_skips_page_updated_by_newer_writer() {
    let mut store = InMemoryColdIndexPageStore::new();
    let stream_id = BucketStreamId::new("benchcmp", "cold-index");
    let first = ColdChunkRef {
        start_offset: 0,
        end_offset: 128,
        s3_path: "benchcmp/cold-index/chunks/first.bin".to_owned(),
        object_size: 128,
    };
    let stale = ColdChunkRef {
        start_offset: 0,
        end_offset: 128,
        s3_path: "benchcmp/cold-index/chunks/stale.bin".to_owned(),
        object_size: 128,
    };
    let newer = ColdChunkRef {
        start_offset: 0,
        end_offset: 128,
        s3_path: "benchcmp/cold-index/chunks/newer.bin".to_owned(),
        object_size: 128,
    };
    write_cold_chunk_index_pages(&mut store, &stream_id, &first, PAGE_SPAN)
        .expect("write first chunk");
    let rollback =
        write_cold_chunk_index_pages_with_rollback(&mut store, &stream_id, &stale, PAGE_SPAN)
            .expect("write stale chunk");
    write_cold_chunk_index_pages(&mut store, &stream_id, &newer, PAGE_SPAN)
        .expect("write newer chunk");

    rollback_cold_index_pages(&mut store, &rollback, PAGE_SPAN).expect("rollback stale chunk");

    let page = store
        .get_page(&ColdIndexPageKey {
            stream_id,
            generation: 0,
            page_id: 0,
        })
        .expect("get page")
        .expect("page exists");
    assert_eq!(page.cold_chunks, vec![newer]);
}

#[test]
fn binary_page_format_round_trips_and_validates() {
    let key = key(42);
    let mut page = page(128, 256);
    page.external_segments.push(ObjectPayloadRef {
        start_offset: 256,
        end_offset: 300,
        s3_path: "benchcmp/cold-index/external/00000000000000000256.bin".to_owned(),
        object_size: 44,
    });
    let bytes = encode_page(&key, &page);
    assert!(bytes.starts_with(b"UCIDX001"));

    assert_eq!(decode_page(&key, &bytes).expect("decode page"), page);

    let mut corrupted = bytes.clone();
    let last = corrupted.last_mut().expect("checksum byte");
    *last ^= 0xff;
    let err = decode_page(&key, &corrupted).expect_err("corrupt checksum");
    assert_eq!(err.kind(), IoErrorKind::InvalidData);

    let wrong_key = ColdIndexPageKey {
        stream_id: key.stream_id.clone(),
        generation: key.generation + 1,
        page_id: key.page_id,
    };
    let err = decode_page(&wrong_key, &bytes).expect_err("key mismatch");
    assert_eq!(err.kind(), IoErrorKind::InvalidData);
}

#[test]
fn a_damaged_page_is_refused() {
    let key = key(3);
    let page = page(0, 64);
    assert!(can_be_stored(&key, &page));
    let bytes = encode_page(&key, &page);
    for at in 0..bytes.len() {
        for change in [0x01, 0x80, 0xff] {
            let mut changed = bytes.clone();
            changed[at] ^= change;
            let err = decode_page(&key, &changed).expect_err("one byte was changed");
            if at >= bytes.len() - 8 {
                assert_eq!(err, ColdIndexError::ChecksumMismatch);
                assert_eq!(err.kind(), IoErrorKind::InvalidData);
            }
        }
        assert!(decode_page(&key, &bytes[..at]).is_err());
    }
    let mut longer = bytes.clone();
    longer.push(0);
    assert_eq!(decode_page(&key, &longer), Err(ColdIndexError::TrailingBytes));
}

#[test]
fn page_cache_loads_on_miss_and_evicts_lru() {
    let mut store = InMemoryColdIndexPageStore::new();
    for page_id in 0..3 {
        store
            .put_page(&key(page_id), &page(page_id * 100, page_id * 100 + 100))
            .expect("put page");
    }
    let mut cache = ColdIndexPageCache::new(store, 2);

    assert_eq!(
        cache
            .get_page(&key(0))
            .expect("load page")
            .expect("page")
            .start_offset,
        0
    );
    assert_eq!(
        cache
            .get_page(&key(1))
            .expect("load page")
            .expect("page")
            .start_offset,
        100
    );
    assert_eq!(cache.cached_page_count(), 2);

    // Touch page 0 so page 1 becomes the eviction candidate.
    assert!(cache.get_page(&key(0)).expect("cached page").is_some());
    assert_eq!(
        cache
            .get_page(&key(2))
            .expect("load page")
            .expect("page")
            .start_offset,
        200
    );
    assert_eq!(cache.cached_page_count(), 2);
    assert!(cache.cache.get_cached(&key(1)).is_none());
    assert!(cache.cache.get_cached(&key(0)).is_some());
}

#[test]
fn zero_capacity_cache_does_not_retain_pages() {
    let mut store = InMemoryColdIndexPageStore::new();
    store.put_page(&key(0), &page(0, 64)).expect("put page");
    let mut cache = ColdIndexPageCache::new(store, 0);

    assert!(cache.get_page(&key(0)).expect("load page").is_some());
    assert_eq!(cache.cached_page_count(), 0);
}

#[test]
fn every_page_fault_has_its_own_error() {
    let key = key(3);
    let bytes = encode_page(&key, &page(0, 10));
    assert_eq!(decode_page(&key, &bytes[..4]), Err(ColdIndexError::EndedEarly));
    let mut bad = bytes.clone();
    bad[0] = b'X';
    assert_eq!(decode_page(&key, &bad), Err(ColdIndexError::InvalidMagic));
    let mut bad = bytes.clone();
    bad[8] = 9;
    let err = decode_page(&key, &bad).expect_err("version");
    assert_eq!(err, ColdIndexError::UnsupportedVersion { version: 9 });
    assert_eq!(err.message(), "unsupported cold index page version 9");
    let mut bad = bytes.clone();
    bad.push(0);
    assert_eq!(decode_page(&key, &bad), Err(ColdIndexError::TrailingBytes));
    let mut bad = bytes.clone();
    let last = bad.len() - 1;
    bad[last] ^= 1;
    assert_eq!(decode_page(&key, &bad), Err(ColdIndexError::ChecksumMismatch));
    let mut other = key.clone();
    other.page_id += 1;
    assert_eq!(decode_page(&other, &bytes), Err(ColdIndexError::KeyMismatch));
}

#[test]
fn text_that_is_no_utf8_is_refused_where_it_goes_wrong() {
    let mut reader = Cursor::new(&[3, 0, 0, 0, b'a', 0xff, b'b']);
    let err = reader.read_string().expect_err("invalid text");
    assert_eq!(
        err,
        ColdIndexError::InvalidUtf8 {
            valid_up_to: 1,
            error_len: Some(1)
        }
    );
    assert_eq!(
        err.message(),
        "cold index page contains invalid UTF-8: invalid utf-8 sequence of 1 bytes from index 1"
    );
    let mut reader = Cursor::new(&[2, 0, 0, 0, b'a', 0xe2]);
    assert_eq!(
        reader.read_string(),
        Err(ColdIndexError::InvalidUtf8 {
            valid_up_to: 1,
            error_len: None
        })
    );
    let mut reader = Cursor::new("\u{4}\0\0\0né!".as_bytes());
    assert_eq!(reader.read_string(), Ok("né!".to_owned()));
}

#[test]
fn the_checksum_is_fnv_1a() {
    assert_eq!(checksum64(b""), 0xcbf2_9ce4_8422_2325);
    assert_eq!(checksum64(b"a"), 0xaf63_dc4c_8601_ec8c);
    assert_eq!(checksum64(b"foobar"), 0x8594_4171_f739_67e8);
}

#[test]
fn a_chunk_goes_to_every_page_that_it_touches() {
    assert_eq!(page_range(0, 100, 100), Some((0, 0)));
    assert_eq!(page_range(0, 101, 100), Some((0, 1)));
    assert_eq!(page_range(250, 250, 100), None);
    let mut store = InMemoryColdIndexPageStore::new();
    let stream_id = BucketStreamId::new("b", "s");
    let long = chunk(50, 250, "b/s/chunks/long.bin");
    write_cold_chunk_index_pages(&mut store, &stream_id, &long, 100).expect("write chunk");
    for page_id in 0..3 {
        let page = store
            .get_page(&ColdIndexPageKey {
                stream_id: stream_id.clone(),
                generation: 0,
                page_id,
            })
            .expect("get page")
            .expect("page exists");
        assert_eq!(page.start_offset, page_id * 100);
        assert_eq!(page.end_offset, page_id * 100 + 100);
        assert_eq!(page.cold_chunks, vec![long.clone()]);
    }
}

#[test]
fn rollback_restores_what_was_there() {
    let mut store = InMemoryColdIndexPageStore::new();
    let stream_id = BucketStreamId::new("b", "s");
    let first = chunk(0, 10, "b/s/chunks/1.bin");
    write_cold_chunk_index_pages(&mut store, &stream_id, &first, 100).expect("write chunk");
    let second = chunk(10, 20, "b/s/chunks/2.bin");
    let rollback =
        write_cold_chunk_index_pages_with_rollback(&mut store, &stream_id, &second, 100)
            .expect("write chunk");
    rollback_cold_index_pages(&mut store, &rollback, 100).expect("roll back");
    let page = store
        .get_page(&ColdIndexPageKey {
            stream_id,
            generation: 0,
            page_id: 0,
        })
        .expect("get page")
        .expect("page exists");
    assert_eq!(page.cold_chunks, vec![first]);
    let kept = Some(page);
    let again = rollback_page(&rollback[0], &kept, 100);
    assert!(again.is_none());
}

#[test]
fn entries_are_sorted_by_offset_and_equals_keep_their_order() {
    let entries = vec![
        chunk(5, 9, "late"),
        chunk(0, 5, "one"),
        chunk(0, 5, "two"),
        chunk(0, 3, "short"),
    ];
    let paths: Vec<String> = sort_entries(&entries)
        .iter()
        .map(|entry| entry.s3_path.clone())
        .collect();
    assert_eq!(paths[3], "late");
    let one = paths.iter().position(|path| path == "one");
    let two = paths.iter().position(|path| path == "two");
    assert!(one < two);
}

#[test]
fn external_segments_are_found_for_a_read() {
    let stream_id = BucketStreamId::new("b", "s");
    let payload = ExternalPayloadRef {
        s3_path: "b/s/external/1.bin".to_owned(),
        payload_len: 30,
        object_size: 64,
    };
    let object = external_object(20, &payload);
    assert_eq!((object.start_offset, object.end_offset), (20, 50));
    assert_eq!(object.object_size, 64);

    let mut store = InMemoryColdIndexPageStore::new();
    write_external_segment_index_pages(&mut store, &stream_id, 20, &payload, 100)
        .expect("write segment");
    let mut cache = ColdIndexPageCache::new(store, 4);
    let segment = StreamReadColdIndexSegment {
        generation: 0,
        page_id: 0,
        read_start_offset: 25,
        len: 10,
    };
    let found = cache
        .object_segments_for_read(&stream_id, &segment)
        .expect("segments");
    assert_eq!(found.len(), 1);
    assert_eq!(found[0].s3_path, "b/s/external/1.bin");

    let beyond = StreamReadColdIndexSegment {
        generation: 0,
        page_id: 0,
        read_start_offset: 45,
        len: 10,
    };
    assert_eq!(
        cache.object_segments_for_read(&stream_id, &beyond),
        Err(ColdIndexError::RangeNotCovered)
    );
    let missing = StreamReadColdIndexSegment {
        generation: 9,
        page_id: 0,
        read_start_offset: 0,
        len: 1,
    };
    let err = cache
        .object_segments_for_read(&stream_id, &missing)
        .expect_err("missing page");
    assert_eq!(err.kind(), IoErrorKind::NotFound);
    assert_eq!(
        err.message(),
        "cold index page 'b/s/cold-index/00000000000000000009/00000000000000000000.idx' does not exist"
    );
    let overflow = StreamReadColdIndexSegment {
        generation: 0,
        page_id: 0,
        read_start_offset: u64::MAX,
        len: 2,
    };
    assert_eq!(
        object_segments(&page(0, 10), &overflow),
        Err(ColdIndexError::ReadRangeOverflow)
    );
}

#[test]
fn an_object_is_cut_to_the_read() {
    let object = ObjectPayloadRef {
        start_offset: 10,
        end_offset: 20,
        s3_path: "o".to_owned(),
        object_size: 10,
    };
    assert!(intersect_object(&object, 20, 30).is_none());
    assert!(intersect_object(&object, 0, 10).is_none());
    assert!(intersect_object(&object, 15, 30).is_some());
}

#[test]
fn a_cached_page_hides_a_change_of_the_store() {
    let mut store = InMemoryColdIndexPageStore::new();
    store.put_page(&key(0), &page(0, 64)).expect("put page");
    let mut cache = ColdIndexPageCache::new(store, 1);
    assert_eq!(cache.get_page(&key(0)), Ok(Some(page(0, 64))));
    cache.store.put_page(&key(0), &page(0, 32)).expect("put page");
    assert_eq!(cache.get_page(&key(0)), Ok(Some(page(0, 64))));
    assert_eq!(cache.store.get_page(&key(0)), Ok(Some(page(0, 32))));
}
