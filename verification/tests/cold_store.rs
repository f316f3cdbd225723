//! The cold store: settings, paths, reads, faults and the block cache.

use ursula_runtime::cold_config::{cold_backend_name, parse_backend};
use ursula_runtime::cold_store::block_read::{
    check_block, readahead_blocks, BlockRange, CachedRead,
};
use ursula_runtime::cold_store::faults::{
    maybe_apply_fault_effect, ColdStoreEvent, ColdStoreFaultEffect,
};
use ursula_runtime::cold_store::paths::{
    cold_chunk_prefix, new_cold_chunk_path, new_external_payload_path,
    reset_cold_chunk_sequence_for_sim, ColdObjectSequence,
};
use ursula_runtime::cold_store::read_cache::{ColdReadCache, ColdReadCacheConfig};
use ursula_runtime::cold_store::reads::{
    begin_object_read, check_chunk_path, finish_object_read, object_fault_context,
    plan_object_read,
};
use ursula_runtime::cold_store::settings::{
    backend_from_env, from_backend, memory_info, s3_from_env_with_root, with_s3_resilience,
    S3Resilience,
};
use ursula_runtime::cold_store::{ColdStoreError, ColdStoreOperation};
use ursula_runtime::cold_worker::{
    cold_compaction_plan, cold_flush_plan, cold_gc_plan, ColdCompactionConfig,
};
use ursula_runtime::duration::{duration_ms, Duration};
use ursula_runtime::env::EnvVars;
use ursula_runtime::ids::BucketStreamId;
use ursula_runtime::io_error::IoErrorKind;
use ursula_runtime::refs::ObjectPayloadRef;
use ursula_runtime::{
    ColdCacheConfig, ColdConfig, ColdStorageBackend, ColdStorageConfig, ColdWorkerConfig,
};

fn object() -> ObjectPayloadRef {
    ObjectPayloadRef {
        start_offset: 100,
        end_offset: 110,
        s3_path: "b/s/chunks/1.bin".to_owned(),
        object_size: 10,
    }
}

#[test]
fn fs_backend_is_not_supported() {
    let err = from_backend("fs").expect_err("fs backend should be unsupported");
    assert_eq!(err.kind(), IoErrorKind::InvalidInput);
    assert_eq!(err.message(), "unsupported URSULA_COLD_BACKEND 'fs'");
}

#[test]
fn backends_go_by_their_names() {
    assert_eq!(parse_backend("none"), Some(ColdStorageBackend::Disabled));
    assert_eq!(parse_backend("off"), Some(ColdStorageBackend::Disabled));
    assert_eq!(parse_backend("inmem"), Some(ColdStorageBackend::Memory));
    assert_eq!(parse_backend("s3"), Some(ColdStorageBackend::S3));
    assert_eq!(parse_backend("S3"), None);
    let mut vars = EnvVars::new();
    assert_eq!(cold_backend_name(&vars), "none");
    assert_eq!(backend_from_env(&vars), Ok(ColdStorageBackend::Disabled));
    vars.set("URSULA_COLD_BACKEND", "MEM");
    assert_eq!(cold_backend_name(&vars), "mem");
    assert_eq!(backend_from_env(&vars), Ok(ColdStorageBackend::Memory));
}

#[test]
fn settings_fall_back_to_their_defaults() {
    let vars = EnvVars::new();
    let config = ColdConfig::from_env(&vars);
    assert!(!config.is_enabled());
    assert_eq!(config.storage.backend, ColdStorageConfig::default().backend);
    assert_eq!(config.cache, None);
    assert_eq!(config.worker, ColdWorkerConfig::default());
    assert_eq!(config.storage.s3_max_retries, 3);
    assert_eq!(config.storage.s3_timeout, Duration::from_millis(10_000));
    assert_eq!(
        with_s3_resilience(&vars),
        S3Resilience {
            timeout_ms: 10_000,
            max_retries: 3
        }
    );
}

#[test]
fn settings_are_read_from_the_environment() {
    let mut vars = EnvVars::new();
    vars.set("URSULA_COLD_BACKEND", "s3");
    vars.set("URSULA_COLD_S3_BUCKET", "bucket");
    vars.set("URSULA_COLD_ROOT", "root");
    vars.set("URSULA_COLD_S3_REGION", "  ");
    vars.set("URSULA_COLD_CACHE_BYTES", "4096");
    vars.set("URSULA_S3_TIMEOUT_MS", "0");
    vars.set("URSULA_S3_MAX_RETRIES", "+7");
    vars.set("URSULA_COLD_FLUSH_INTERVAL_MS", "250");
    let config = ColdConfig::from_env(&vars);
    assert!(config.is_enabled());
    assert_eq!(
        config.cache,
        Some(ColdCacheConfig {
            max_bytes: 4096,
            block_bytes: 1_048_576,
            max_readahead_blocks: 4
        })
    );
    assert_eq!(config.worker.flush_interval_ms, 250);
    let settings = s3_from_env_with_root(&vars, None).expect("settings");
    assert_eq!(settings.bucket, "bucket");
    assert_eq!(settings.root, Some("root".to_owned()));
    assert_eq!(settings.region, None);
    let settings = s3_from_env_with_root(&vars, Some("other")).expect("settings");
    let info = settings.info();
    assert_eq!(info.backend, "s3");
    assert_eq!(info.root, Some("other".to_owned()));
    assert_eq!(info.bucket, Some("bucket".to_owned()));
    assert_eq!(memory_info().backend, "memory");
    assert_eq!(
        with_s3_resilience(&vars),
        S3Resilience {
            timeout_ms: 10_000,
            max_retries: 7
        }
    );
}

#[test]
fn object_storage_needs_a_bucket() {
    let mut vars = EnvVars::new();
    let err = s3_from_env_with_root(&vars, None).expect_err("no bucket");
    assert_eq!(err, ColdStoreError::MissingBucket);
    vars.set("URSULA_COLD_S3_BUCKET", " ");
    let err = s3_from_env_with_root(&vars, None).expect_err("blank bucket");
    assert_eq!(err, ColdStoreError::BlankBucket);
    assert_eq!(err.message(), "URSULA_COLD_S3_BUCKET must not be empty");
}

#[test]
fn paths_name_stream_time_and_number() {
    let stream_id = BucketStreamId::new("b", "s");
    let mut sequence = ColdObjectSequence::new();
    let path = new_cold_chunk_path(&stream_id, 1, 20, 255, &mut sequence);
    assert_eq!(
        path,
        "b/s/chunks/0000000000000001-0000000000000014-000000000000000000000000000000ff-0000000000000000.bin"
    );
    assert!(path.starts_with(&cold_chunk_prefix(&stream_id)));
    let next = new_cold_chunk_path(&stream_id, 1, 20, 255, &mut sequence);
    assert_ne!(next, path);
    reset_cold_chunk_sequence_for_sim(&mut sequence);
    let external = new_external_payload_path(&stream_id, 16, &mut sequence);
    assert_eq!(
        external,
        "b/s/external/00000000000000000000000000000010-0000000000000000.bin"
    );
}

#[test]
fn a_read_is_placed_in_its_object() {
    assert_eq!(plan_object_read(&object(), 102, 3), Ok(Some((2, 5))));
    assert_eq!(plan_object_read(&object(), 0, 0), Ok(None));
    assert_eq!(
        plan_object_read(&object(), u64::MAX, 1),
        Err(ColdStoreError::RangeOverflow)
    );
    let err = plan_object_read(&object(), 99, 2).expect_err("outside segment");
    assert_eq!(
        err.message(),
        "cold read range [99..101) is outside object segment [100..110)"
    );
    assert_eq!(err.kind(), IoErrorKind::InvalidInput);
    let mut short = object();
    short.object_size = 4;
    let err = plan_object_read(&short, 102, 3).expect_err("outside object");
    assert_eq!(
        err.message(),
        "cold read range [2..5) is outside object 'b/s/chunks/1.bin' size 4"
    );
    assert_eq!(err.kind(), IoErrorKind::InvalidData);
    assert_eq!(check_chunk_path(""), Err(ColdStoreError::EmptyPath));
    assert_eq!(check_chunk_path("p"), Ok(()));
}

#[test]
fn a_finished_read_has_as_many_bytes_as_were_asked_for() {
    let read = begin_object_read(&None, &object(), 102, 3, false)
        .expect("plan")
        .expect("bytes to read");
    assert!(matches!(
        read.begin_event(),
        ColdStoreEvent::ReadObjectRangeBegin { object_start: 2, object_end: 5, .. }
    ));
    let done = finish_object_read(&read, vec![1, 2, 3], None);
    assert_eq!(done.result, Ok(vec![1, 2, 3]));
    assert_eq!(done.truncated, None);
    assert!(done.completed.is_some());
    let done = finish_object_read(&read, vec![1, 2], None);
    assert_eq!(
        done.result.expect_err("short read").message(),
        "cold object 'b/s/chunks/1.bin' returned 2 bytes for requested range [2..5)"
    );
    let done = finish_object_read(&read, vec![1, 2, 3], Some(1));
    assert!(matches!(
        done.truncated,
        Some(ColdStoreEvent::TruncateInjected { requested_len: 3, returned_len: 1, .. })
    ));
    assert!(matches!(
        done.result,
        Err(ColdStoreError::ShortRead { returned: 1, .. })
    ));
}

#[test]
fn faults_are_injected_in_their_order() {
    let context = object_fault_context(ColdStoreOperation::WriteChunk, "p", Some(3));
    let none = maybe_apply_fault_effect(&context, None);
    assert!(none.delay.is_none() && none.failure.is_none());
    let both = maybe_apply_fault_effect(
        &context,
        Some(ColdStoreFaultEffect::delay_then_fail(Duration::from_millis(1500), "boom")),
    );
    let (delay, event) = both.delay.expect("delay");
    assert_eq!(delay, Duration { secs: 1, nanos: 500_000_000 });
    assert!(matches!(event, ColdStoreEvent::DelayInjected { delay_ms: 1500, .. }));
    let (error, _) = both.failure.expect("failure");
    assert_eq!(error.kind(), IoErrorKind::Other);
    assert_eq!(
        error.message(),
        "cold store fault injected for write_chunk 'p': boom"
    );
    let cut = maybe_apply_fault_effect(&context, Some(ColdStoreFaultEffect::truncate_read_to(2)));
    assert_eq!(cut.truncate_read_to, Some(2));
    assert_eq!(duration_ms(Duration { secs: u64::MAX, nanos: 0 }), u64::MAX);
}

#[test]
fn blocks_are_put_together_to_the_bytes_that_were_asked_for() {
    let content: Vec<u8> = (0..25).collect();
    let mut read = CachedRead::new(25, 10, 7, 23);
    let mut indices = Vec::new();
    while let Some(block) = read.next_block() {
        indices.push(block.index);
        let bytes = &content[block.start as usize..block.end as usize];
        assert_eq!(check_block(&"p".to_owned(), bytes.len(), block, 25), Ok(()));
        read.accept_block(bytes);
    }
    assert_eq!(indices, vec![0, 1, 2]);
    assert_eq!(read.finish(), content[7..23].to_vec());
    let block = BlockRange { index: 2, start: 20, end: 25 };
    assert_eq!(
        check_block(&"p".to_owned(), 4, block, 25).expect_err("short block").message(),
        "cold object 'p' returned 4 bytes for cache block [20..25) of object size 25"
    );
    assert_eq!(
        readahead_blocks(15, 25, 10, 3),
        vec![BlockRange { index: 2, start: 20, end: 25 }]
    );
}

fn cache(max_bytes: usize) -> ColdReadCache {
    ColdReadCache::new(ColdReadCacheConfig {
        max_bytes,
        block_bytes: 4,
        max_readahead_blocks: 2,
    })
}

#[test]
fn the_block_cache_gives_up_what_was_used_longest_ago() {
    let mut cache = cache(8);
    cache.insert("a", 0, vec![1; 4]);
    cache.insert("b", 0, vec![2; 4]);
    assert_eq!(cache.get("a", 0), Some(vec![1; 4]));
    cache.insert("c", 0, vec![3; 4]);
    assert_eq!(cache.current_bytes(), 8);
    assert_eq!(cache.block_count(), 2);
    assert_eq!(cache.get("b", 0), None);
    assert_eq!(cache.get("a", 0), Some(vec![1; 4]));
    assert_eq!(cache.get("c", 0), Some(vec![3; 4]));
}

#[test]
fn the_block_cache_forgets_what_is_deleted() {
    let mut cache = cache(100);
    cache.insert("x/1", 0, vec![1; 4]);
    cache.insert("x/1", 1, vec![1; 4]);
    cache.insert("x/2", 0, vec![1; 4]);
    cache.insert("y", 0, vec![1; 4]);
    cache.invalidate_path("x/1");
    assert_eq!(cache.block_count(), 2);
    cache.invalidate_prefix("x/");
    assert_eq!(cache.block_count(), 1);
    assert_eq!(cache.current_bytes(), 4);
}

#[test]
fn reading_in_sequence_reads_ahead() {
    let stream_id = BucketStreamId::new("b", "s");
    let mut cache = cache(100);
    assert_eq!(cache.block_size(), 4);
    assert_eq!(cache.record_stream_read(&stream_id, 0, 4), 1);
    assert_eq!(cache.record_stream_read(&stream_id, 4, 4), 2);
    assert_eq!(cache.record_stream_read(&stream_id, 8, 4), 2);
    assert_eq!(cache.record_stream_read(&stream_id, 40, 4), 0);
    let mut vars = EnvVars::new();
    assert!(ColdReadCache::from_env(&vars).is_some());
    vars.set("URSULA_COLD_CACHE_BYTES", "0");
    assert!(ColdReadCache::from_env(&vars).is_none());
}

#[test]
fn workers_run_only_where_they_have_an_interval() {
    let mut config = ColdWorkerConfig::default();
    config.flush_interval_ms = 0;
    config.gc_interval_ms = 0;
    assert!(cold_flush_plan(&config).is_none());
    assert!(cold_gc_plan(&config).is_none());
    config.flush_interval_ms = 10;
    config.flush_max_concurrency = 0;
    config.gc_interval_ms = 20;
    config.gc_max_entries = 0;
    let flush = cold_flush_plan(&config).expect("flush plan");
    assert_eq!((flush.interval_ms, flush.max_concurrency), (10, 1));
    let gc = cold_gc_plan(&config).expect("gc plan");
    assert_eq!((gc.interval_ms, gc.max_entries), (20, 1));
    let mut compaction = ColdCompactionConfig {
        enabled: false,
        interval: Duration::from_millis(5),
        target_size: 1,
        max_size: 2,
        max_streams_per_pass: 0,
        gc_grace: Duration::from_millis(7),
    };
    assert!(cold_compaction_plan(&compaction).is_none());
    compaction.enabled = true;
    let plan = cold_compaction_plan(&compaction).expect("compaction plan");
    assert_eq!((plan.max_streams, plan.gc_grace_ms), (1, 7));
}
