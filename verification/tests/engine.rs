//! The group engines: applying, logging, replaying and reading.

use ursula_runtime::command::GroupWriteCommand;
use ursula_runtime::engine::access::{
    check_cold_write_admission_bytes, missing_stream_error, payload_bytes, AccessAnswer,
};
use ursula_runtime::engine::checks::is_answer;
use ursula_runtime::engine::defaults::{
    batch_of_next, unsupported, unsupported_cold_gc, OptionalOperation,
};
use ursula_runtime::engine::dispatch::{engine_request, EngineRequest};
use ursula_runtime::engine::in_memory::{ensure_bucket_exists, stream_response_error};
use ursula_runtime::engine::plan_read::{PlanRead, PlanStep};
use ursula_runtime::engine::reads::{
    bootstrap_record_len, bootstrap_response, clipped_reads, cold_hot_backlog_for,
    external_append_offset, head_stream_after_access, read_snapshot_response,
    segment_work, ObjectRead, SegmentWork, StreamBootstrapPlan, StreamMessageRecord,
};
use ursula_runtime::engine::snapshot::restore_stream_append_counts;
use ursula_runtime::engine::state::MachineAnswer;
use ursula_runtime::engine::wal::{
    group_log_path, replay_group_log, try_replay_group_log, wal_failure, ReplayedRecord, WalStep,
};
use ursula_runtime::engine::write_batch::{begin_write_batch, finish_write_batch, EngineReply};
use ursula_runtime::ids::{BucketStreamId, CoreId, RaftGroupId, ShardId, ShardPlacement};
use ursula_runtime::refs::{ObjectPayloadRef, StreamReadColdIndexSegment};
use ursula_runtime::request::{
    AppendBatchRequest, AppendRequest, AppendResponse, ColdWriteAdmission, CreateStreamRequest,
    DeleteStreamRequest, GroupReadStreamParts, ReadStreamResponse, StreamAppendCount, StreamHead,
    StreamVisibleSnapshot,
};
use ursula_runtime::stream::{
    BatchAppended, BatchItem, ProducerRequest, StreamCommand, StreamErrorCode,
    StreamReadObjectSegment, StreamReadPlan, StreamReadSegment, StreamResponse,
};
use ursula_runtime::{
    ErrorStatus, GroupEngineError, GroupInfraError, GroupWriteResponse, InMemoryGroupEngine,
    RuntimeError, WalGroupEngine,
};

fn placement() -> ShardPlacement {
    ShardPlacement {
        core_id: CoreId(1),
        shard_id: ShardId(2),
        raft_group_id: RaftGroupId(3),
    }
}

fn stream(name: &str) -> BucketStreamId {
    BucketStreamId::new("b", name)
}

fn append(name: &str, payload: &[u8]) -> StreamCommand {
    StreamCommand::from(AppendRequest::from_bytes(stream(name), payload.to_vec()))
}

fn append_batch(name: &str, payloads: Vec<Vec<u8>>) -> StreamCommand {
    StreamCommand::from(AppendBatchRequest::new(stream(name), payloads))
}

fn appended(offset: u64, next_offset: u64, deduplicated: bool) -> StreamResponse {
    StreamResponse::Appended {
        offset,
        next_offset,
        closed: false,
        deduplicated,
        producer: None,
        record_range: None,
    }
}

fn refused(code: StreamErrorCode, message: &str) -> StreamResponse {
    StreamResponse::Error {
        code,
        message: message.to_owned(),
        next_offset: Some(9),
    }
}

#[test]
fn an_append_is_counted_once() {
    let mut engine = InMemoryGroupEngine::new();
    let command = append("s", b"abc");
    let first = engine
        .apply_committed_write(&command, MachineAnswer::One(appended(0, 3, false)), placement())
        .expect("append");
    match first {
        GroupWriteResponse::Append(response) => {
            assert_eq!(response.start_offset, 0);
            assert_eq!(response.next_offset, 3);
            assert_eq!(response.stream_append_count, 1);
            assert_eq!(response.group_commit_index, 1);
            assert_eq!(response.placement, placement());
        }
        other => panic!("unexpected response: {other:?}"),
    }
    let again = engine
        .apply_committed_write(&command, MachineAnswer::One(appended(0, 3, true)), placement())
        .expect("repeated append");
    match again {
        GroupWriteResponse::Append(response) => {
            assert!(response.deduplicated);
            assert_eq!(response.stream_append_count, 1);
            assert_eq!(response.group_commit_index, 1);
        }
        other => panic!("unexpected response: {other:?}"),
    }
    assert_eq!(engine.append_count(&stream("s")), 1);
    assert_eq!(engine.append_count(&stream("t")), 0);
}

#[test]
fn a_refused_write_changes_nothing() {
    let mut engine = InMemoryGroupEngine::new();
    let error = engine
        .apply_committed_write(
            &append("s", b"abc"),
            MachineAnswer::One(refused(StreamErrorCode::StreamGone, "gone")),
            placement(),
        )
        .expect_err("refused");
    assert_eq!(error.message(), "StreamGone: gone");
    assert_eq!(error.code(), Some(StreamErrorCode::StreamGone));
    assert_eq!(error.next_offset(), Some(9));
    let error = engine
        .apply_committed_write(
            &append("s", b"abc"),
            MachineAnswer::One(StreamResponse::BucketDeleted),
            placement(),
        )
        .expect_err("surprise");
    assert_eq!(error.message(), "unexpected append response: BucketDeleted");
    let error = engine
        .apply_committed_write(
            &append("s", b"abc"),
            MachineAnswer::One(StreamResponse::Closed {
                next_offset: 3,
                deduplicated: false,
            }),
            placement(),
        )
        .expect_err("surprise");
    assert_eq!(
        error.message(),
        "unexpected append response: Closed { next_offset: 3, deduplicated: false }"
    );
    assert_eq!(engine.commit_index, 0);
    assert_eq!(engine.append_count(&stream("s")), 0);
}

#[test]
fn a_stream_is_created_in_a_bucket_that_is_there() {
    assert_eq!(ensure_bucket_exists(StreamResponse::BucketCreated), Ok(()));
    assert_eq!(ensure_bucket_exists(StreamResponse::BucketAlreadyExists), Ok(()));
    assert!(ensure_bucket_exists(StreamResponse::BucketDeleted).is_err());
    let mut engine = InMemoryGroupEngine::new();
    let command = StreamCommand::from(CreateStreamRequest::new(stream("s"), "text/plain"));
    engine
        .apply_committed_write(
            &command,
            MachineAnswer::NoBucket(refused(
                StreamErrorCode::Other {
                    name: "InvalidBucketId".to_owned(),
                },
                "bad bucket",
            )),
            placement(),
        )
        .expect_err("no bucket");
    let made = engine
        .apply_committed_write(
            &command,
            MachineAnswer::One(StreamResponse::Created {
                next_offset: 0,
                closed: false,
                record_range: None,
            }),
            placement(),
        )
        .expect("create");
    assert!(matches!(
        made,
        GroupWriteResponse::CreateStream(response)
            if !response.already_exists && response.group_commit_index == 1
    ));
    let there = engine
        .apply_committed_write(
            &command,
            MachineAnswer::One(StreamResponse::AlreadyExists {
                next_offset: 4,
                closed: true,
                record_range: None,
            }),
            placement(),
        )
        .expect("create again");
    assert!(matches!(
        there,
        GroupWriteResponse::CreateStream(response)
            if response.already_exists && response.closed && response.group_commit_index == 1
    ));
}

#[test]
fn a_batch_without_producer_is_answered_payload_by_payload() {
    let mut engine = InMemoryGroupEngine::new();
    let command = append_batch("s", vec![b"a".to_vec(), Vec::new(), b"b".to_vec()]);
    let response = engine
        .apply_committed_write(
            &command,
            MachineAnswer::Each(vec![
                Some(appended(0, 1, false)),
                None,
                Some(appended(1, 2, false)),
            ]),
            placement(),
        )
        .expect("batch");
    match response {
        GroupWriteResponse::AppendBatch(batch) => {
            assert_eq!(batch.items.len(), 3);
            assert_eq!(batch.items[0].as_ref().expect("first").stream_append_count, 1);
            assert_eq!(
                batch.items[1].as_ref().expect_err("empty").message(),
                "EmptyAppend: append payload must be non-empty"
            );
            assert_eq!(batch.items[2].as_ref().expect("third").group_commit_index, 2);
        }
        other => panic!("unexpected response: {other:?}"),
    }
    assert_eq!(engine.commit_index, 2);
}

#[test]
fn a_batch_of_a_producer_is_appended_as_a_whole() {
    let mut engine = InMemoryGroupEngine::new();
    let mut request = AppendBatchRequest::new(stream("s"), vec![b"a".to_vec(), b"b".to_vec()]);
    request.producer = Some(ProducerRequest {
        producer_id: "p".to_owned(),
        producer_epoch: 1,
        producer_seq: 0,
    });
    let command = StreamCommand::from(request);
    let item = BatchItem {
        offset: 0,
        next_offset: 1,
        closed: false,
        deduplicated: false,
        record_range: None,
    };
    let response = engine
        .apply_committed_write(
            &command,
            MachineAnswer::Whole(Ok(BatchAppended {
                deduplicated: false,
                items: vec![item, item],
            })),
            placement(),
        )
        .expect("batch");
    match response {
        GroupWriteResponse::AppendBatch(batch) => {
            let counts: Vec<u64> = batch
                .items
                .iter()
                .map(|item| item.as_ref().expect("item").stream_append_count)
                .collect();
            assert_eq!(counts, vec![1, 2]);
        }
        other => panic!("unexpected response: {other:?}"),
    }
    assert_eq!(engine.commit_index, 2);
    assert_eq!(engine.append_count(&stream("s")), 2);
}

#[test]
fn deleting_for_good_forgets_the_count() {
    let mut engine = InMemoryGroupEngine::new();
    for name in ["s", "t"] {
        engine
            .apply_committed_write(
                &append(name, b"x"),
                MachineAnswer::One(appended(0, 1, false)),
                placement(),
            )
            .expect("append");
    }
    let command = StreamCommand::from(DeleteStreamRequest {
        stream_id: stream("s"),
    });
    engine
        .apply_committed_write(
            &command,
            MachineAnswer::One(StreamResponse::Deleted {
                hard_deleted: true,
                parent_to_release: None,
            }),
            placement(),
        )
        .expect("delete");
    assert_eq!(engine.append_count(&stream("s")), 0);
    assert_eq!(engine.append_count(&stream("t")), 1);
    assert_eq!(engine.commit_index, 3);
}

#[test]
fn replicated_writes_are_answered_in_order_past_errors() {
    let commands = vec![
        GroupWriteCommand::Stream(append("s", b"x")),
        GroupWriteCommand::Batch {
            commands: vec![append("s", b"y"), append("t", b"z")],
        },
        GroupWriteCommand::Batch {
            commands: Vec::new(),
        },
        GroupWriteCommand::Stream(StreamCommand::CreateBucket {
            bucket_id: "b".to_owned(),
        }),
        GroupWriteCommand::Stream(StreamCommand::from(DeleteStreamRequest {
            stream_id: stream("s"),
        })),
    ];
    let batch = begin_write_batch(commands);
    let asked: Vec<Option<&str>> = batch
        .requests
        .iter()
        .map(|request| match request {
            Ok(EngineRequest::Append(request)) => Some(request.stream_id.stream_id.as_str()),
            Ok(EngineRequest::DeleteStream(_)) => Some("delete"),
            _ => None,
        })
        .collect();
    assert_eq!(
        asked,
        vec![Some("s"), Some("s"), Some("t"), None, Some("delete")]
    );
    let response = |index: u64| AppendResponse {
        placement: placement(),
        start_offset: index,
        next_offset: index + 1,
        stream_append_count: index + 1,
        group_commit_index: index + 1,
        closed: false,
        deduplicated: false,
        producer: None,
        record_range: None,
    };
    let replies = vec![
        Err(GroupEngineError::new("first")),
        Ok(EngineReply::Append(response(0))),
        Err(GroupEngineError::new("third")),
        Err(GroupEngineError::new("fourth")),
        Ok(EngineReply::AppendExternal(response(1))),
    ];
    let results = finish_write_batch(&batch.shapes, replies);
    assert_eq!(
        results,
        vec![
            Err(GroupEngineError::new("first")),
            Ok(GroupWriteResponse::Batch(vec![
                Ok(GroupWriteResponse::Append(response(0))),
                Err(GroupEngineError::new("third")),
            ])),
            Ok(GroupWriteResponse::Batch(Vec::new())),
            Err(GroupEngineError::new("fourth")),
            Ok(GroupWriteResponse::Append(response(1))),
        ]
    );
}

#[test]
fn a_replayed_log_counts_what_was_acknowledged() {
    let mut engine = WalGroupEngine::open(Ok(InMemoryGroupEngine::new()));
    let writes = vec![
        (append("s", b"x"), appended(0, 1, false)),
        (append("s", b"x"), appended(0, 1, true)),
        (
            append("t", b"y"),
            refused(StreamErrorCode::StreamNotFound, "no t"),
        ),
        (append("s", b"z"), appended(1, 2, false)),
        (
            StreamCommand::from(DeleteStreamRequest {
                stream_id: stream("u"),
            }),
            StreamResponse::Deleted {
                hard_deleted: true,
                parent_to_release: None,
            },
        ),
    ];
    let admission = ColdWriteAdmission {
        max_hot_bytes_per_group: Some(100),
    };
    let mut log = Vec::new();
    for (command, response) in writes {
        let answer = MachineAnswer::One(response.clone());
        if engine
            .begin_write(&command, &answer, admission, 0)
            .expect("let in")
        {
            log.push(ReplayedRecord::Command {
                command: GroupWriteCommand::Stream(command.clone()),
                answers: vec![MachineAnswer::One(response)],
            });
        }
        let _ = engine.finish_write(&command, answer, placement(), Ok(()));
    }
    assert_eq!(log.len(), 3);
    let replayed = replay_group_log("log", log).expect("replayed");
    assert_eq!(replayed.commit_index, engine.inner.commit_index);
    assert_eq!(replayed.commit_index, 3);
    assert_eq!(replayed.append_count(&stream("s")), 2);
    assert_eq!(replayed.append_count(&stream("t")), 0);
}

#[test]
fn a_log_that_cannot_be_counted_is_not_replayed() {
    let record = || ReplayedRecord::Command {
        command: GroupWriteCommand::Stream(append("s", b"x")),
        answers: vec![MachineAnswer::One(appended(0, 1, false))],
    };
    let full = |index: u64| ReplayedRecord::Snapshot {
        group_commit_index: index,
        restored: Ok(Vec::new()),
        stream_append_counts: Vec::new(),
    };
    assert!(try_replay_group_log("log", vec![full(u64::MAX), record()]).is_none());
    let replayed = try_replay_group_log("log", vec![full(u64::MAX - 1), record()])
        .expect("there is room")
        .expect("replayed");
    assert_eq!(replayed.commit_index, u64::MAX);
}

#[test]
fn replayed_attributes_count_where_they_changed() {
    let mut engine = InMemoryGroupEngine::new();
    let command = StreamCommand::UpdateStreamAttrs {
        stream_id: stream("s"),
        attrs: None,
        now_ms: 0,
    };
    for changed in [true, false] {
        engine
            .apply_replayed_command(
                &command,
                MachineAnswer::One(StreamResponse::AttrsUpdated { changed }),
            )
            .expect("replayed");
    }
    assert_eq!(engine.commit_index, 1);
}

#[test]
fn a_deletion_is_counted_alike_when_it_is_replayed() {
    let mut applied = InMemoryGroupEngine::new();
    let mut replayed = InMemoryGroupEngine::new();
    let command = StreamCommand::from(DeleteStreamRequest {
        stream_id: stream("s"),
    });
    let deleted = || {
        MachineAnswer::One(StreamResponse::Deleted {
            hard_deleted: true,
            parent_to_release: None,
        })
    };
    applied
        .apply_committed_write(&command, deleted(), placement())
        .expect("applied");
    replayed
        .apply_replayed_command(&command, deleted())
        .expect("replayed");
    assert_eq!((applied.commit_index, replayed.commit_index), (1, 1));
}

#[test]
fn attributes_are_counted_where_they_change() {
    let mut engine = WalGroupEngine::open(Ok(InMemoryGroupEngine::new()));
    let command = StreamCommand::UpdateStreamAttrs {
        stream_id: stream("s"),
        attrs: None,
        now_ms: 0,
    };
    let mut indices = Vec::new();
    for changed in [true, false] {
        let answer = MachineAnswer::One(StreamResponse::AttrsUpdated { changed });
        assert_eq!(
            engine.begin_write(&command, &answer, ColdWriteAdmission::default(), 0),
            Ok(changed)
        );
        match engine.finish_write(&command, answer, placement(), Ok(())) {
            Ok(GroupWriteResponse::UpdateStreamAttrs(response)) => {
                assert_eq!(response.changed, changed);
                indices.push(response.group_commit_index);
            }
            other => panic!("unexpected response: {other:?}"),
        }
    }
    assert_eq!(indices, vec![1, 1]);
}

#[test]
fn a_group_write_may_be_a_batch_of_commands() {
    let mut engine = InMemoryGroupEngine::new();
    let command = GroupWriteCommand::Batch {
        commands: vec![append("s", b"x"), append("t", b"y")],
    };
    let response = engine
        .apply_group_write(
            &command,
            vec![
                MachineAnswer::One(appended(0, 1, false)),
                MachineAnswer::One(refused(StreamErrorCode::StreamNotFound, "no t")),
            ],
            placement(),
        )
        .expect("batch");
    match response {
        GroupWriteResponse::Batch(results) => {
            assert!(results[0].is_ok());
            assert_eq!(results[1].as_ref().expect_err("refused").message(), "StreamNotFound: no t");
        }
        other => panic!("unexpected response: {other:?}"),
    }
    assert_eq!(engine.commit_index, 1);
}

#[test]
fn a_snapshot_can_be_installed_again() {
    let mut engine = InMemoryGroupEngine::new();
    for _ in 0..3 {
        engine
            .apply_committed_write(
                &append("s", b"x"),
                MachineAnswer::One(appended(0, 1, false)),
                placement(),
            )
            .expect("append");
    }
    let streams = vec![stream("s"), stream("t")];
    let counts = engine.stream_append_counts_snapshot(&streams);
    let mut other = InMemoryGroupEngine::new();
    other
        .install_snapshot_parts(engine.commit_index, &Ok(streams), &counts)
        .expect("install");
    assert_eq!(other.commit_index, 3);
    assert_eq!(other.append_count(&stream("s")), 3);
    let error = other
        .install_snapshot_parts(9, &Err("torn".to_owned()), &counts)
        .expect_err("torn snapshot");
    assert_eq!(error.message(), "restore stream snapshot: torn");
    assert_eq!(other.commit_index, 3);
}

#[test]
fn counts_of_a_snapshot_fit_its_streams() {
    let count = |name: &str| StreamAppendCount {
        stream_id: stream(name),
        append_count: 1,
    };
    let error = restore_stream_append_counts(&vec![count("s")], &vec![stream("t")])
        .expect_err("stray count");
    assert_eq!(
        error.message(),
        "append count references missing snapshot stream 'b/s'"
    );
    let error = restore_stream_append_counts(&vec![count("s"), count("s")], &vec![stream("s")])
        .expect_err("second count");
    assert_eq!(
        error.message(),
        "snapshot contains duplicate append count for stream 'b/s'"
    );
}

#[test]
fn writes_are_held_back_above_the_limit() {
    let admission = ColdWriteAdmission {
        max_hot_bytes_per_group: Some(10),
    };
    assert_eq!(
        check_cold_write_admission_bytes(&stream("s"), admission, 7, 3),
        Ok(())
    );
    let error = check_cold_write_admission_bytes(&stream("s"), admission, 7, 4)
        .expect_err("above the limit");
    assert!(error.is_cold_backpressure());
    assert_eq!(
        error.message(),
        "ColdBackpressure: stream 'b/s' would raise group hot bytes from 7 to 11, above limit 10"
    );
    assert_eq!(payload_bytes(&vec![vec![1, 2], vec![3]]), 3);

    let mut engine = InMemoryGroupEngine::new();
    let command = append("s", b"abcd");
    let error = engine
        .apply_with_admission(
            &command,
            MachineAnswer::One(appended(0, 4, false)),
            placement(),
            admission,
            7,
        )
        .expect_err("held back");
    assert!(error.is_backpressure());
    assert_eq!(engine.commit_index, 0);
    engine
        .apply_with_admission(
            &command,
            MachineAnswer::One(appended(0, 4, true)),
            placement(),
            admission,
            7,
        )
        .expect("a repeated write brings no bytes");
}

#[test]
fn an_access_is_applied_where_it_matters() {
    let mut engine = InMemoryGroupEngine::new();
    assert_eq!(
        engine.ensure_stream_access(&stream("s"), 5, true, AccessAnswer::NotNeeded, placement()),
        Ok(None)
    );
    let touched = engine
        .ensure_stream_access(
            &stream("s"),
            5,
            true,
            AccessAnswer::Touched(StreamResponse::Accessed {
                changed: true,
                expired: false,
            }),
            placement(),
        )
        .expect("touch")
        .expect("a response");
    assert_eq!(touched.group_commit_index, 1);
    let error = engine
        .ensure_stream_access(
            &stream("s"),
            5,
            true,
            AccessAnswer::Touched(StreamResponse::Accessed {
                changed: true,
                expired: true,
            }),
            placement(),
        )
        .expect_err("expired");
    assert_eq!(error.message(), missing_stream_error(&stream("s")).message());
    assert_eq!(error.message(), "StreamNotFound: stream 'b/s' does not exist");
    assert_eq!(engine.commit_index, 2);
}

#[test]
fn a_logged_write_is_applied_only_when_it_is_in_the_log() {
    let mut engine = WalGroupEngine::open(Ok(InMemoryGroupEngine::new()));
    let command = append("s", b"x");
    let answer = MachineAnswer::One(appended(0, 1, false));
    assert_eq!(
        engine.begin_write(&command, &answer, ColdWriteAdmission::default(), 0),
        Ok(true)
    );
    let failure = wal_failure(WalStep::Write, "core-1/group-3.jsonl", "disk full");
    assert_eq!(
        failure.message(),
        "write WAL 'core-1/group-3.jsonl': disk full"
    );
    engine
        .finish_write(&command, answer, placement(), Err(failure))
        .expect_err("not logged");
    assert_eq!(engine.inner.commit_index, 0);
    engine
        .finish_write(
            &command,
            MachineAnswer::One(appended(0, 1, false)),
            placement(),
            Ok(()),
        )
        .expect("logged");
    assert_eq!(engine.inner.commit_index, 1);
    assert_eq!(group_log_path(placement()), "core-1/group-3.jsonl");

    let broken = WalGroupEngine::open(Err(GroupEngineError::new("no log")));
    assert_eq!(broken.ensure_ready().expect_err("not ready").message(), "no log");
}

#[test]
fn the_log_restores_the_counters() {
    let records = vec![
        ReplayedRecord::Command {
            command: GroupWriteCommand::Stream(append("s", b"x")),
            answers: vec![MachineAnswer::One(appended(0, 1, false))],
        },
        ReplayedRecord::Snapshot {
            group_commit_index: 7,
            restored: Ok(vec![stream("t")]),
            stream_append_counts: vec![StreamAppendCount {
                stream_id: stream("t"),
                append_count: 5,
            }],
        },
        ReplayedRecord::Command {
            command: GroupWriteCommand::Stream(append("t", b"y")),
            answers: vec![MachineAnswer::One(appended(0, 1, false))],
        },
    ];
    let engine = replay_group_log("log", records).expect("replay");
    assert_eq!(engine.commit_index, 8);
    assert_eq!(engine.append_count(&stream("t")), 6);
    assert_eq!(engine.append_count(&stream("s")), 0);

    let error = replay_group_log(
        "log",
        vec![ReplayedRecord::Command {
            command: GroupWriteCommand::Stream(append("s", b"x")),
            answers: vec![MachineAnswer::One(refused(StreamErrorCode::StreamGone, "gone"))],
        }],
    )
    .expect_err("a logged write must replay");
    assert_eq!(error.message(), "replay WAL command 'log' record 1: StreamGone: gone");
}

#[test]
fn commands_and_requests_say_the_same() {
    let request = AppendRequest::from_bytes(stream("s"), b"abc".to_vec());
    let command = StreamCommand::from(request.clone());
    match engine_request(command) {
        Ok(EngineRequest::Append(back)) => assert_eq!(back, request),
        other => panic!("unexpected request: {other:?}"),
    }
    let bucket = StreamCommand::CreateBucket {
        bucket_id: "b".to_owned(),
    };
    assert_eq!(engine_request(bucket.clone()), Err(bucket));
}

#[test]
fn a_plan_is_read_segment_by_segment() {
    let object = |start: u64, end: u64| ObjectPayloadRef {
        start_offset: start,
        end_offset: end,
        s3_path: format!("o{start}"),
        object_size: end - start,
    };
    let cold = StreamReadColdIndexSegment {
        generation: 0,
        page_id: 0,
        read_start_offset: 2,
        len: 4,
    };
    let plan = || StreamReadPlan {
        offset: 1,
        next_offset: 9,
        content_type: "text/plain".to_owned(),
        segments: vec![
            StreamReadSegment::Hot(vec![1]),
            StreamReadSegment::ColdIndex(cold),
            StreamReadSegment::Object(StreamReadObjectSegment {
                object: object(6, 8),
                read_start_offset: 6,
                len: 2,
            }),
            StreamReadSegment::Hot(vec![8]),
        ],
        up_to_date: true,
        closed: false,
        retained_record_range: None,
        record_range: None,
    };
    let at = |read: &ObjectRead| -> Vec<u8> {
        (0..read.len).map(|i| read.start as u8 + i as u8).collect()
    };
    let mut read = PlanRead::new(plan());
    let name = stream("s");
    assert_eq!(read.next_step(&name, true, true), Ok(PlanStep::LookUp(cold)));
    read.accept_objects(&vec![object(0, 3), object(3, 6), object(6, 8)]);
    let mut starts: Vec<(u64, usize)> = Vec::new();
    loop {
        match read.next_step(&name, true, true) {
            Ok(PlanStep::Read(next)) => {
                starts.push((next.start, next.len));
                read.accept_bytes(&at(&next));
            }
            Ok(PlanStep::Done) => break,
            other => panic!("{other:?}"),
        }
    }
    assert_eq!(starts, vec![(2, 1), (3, 3), (6, 2)]);
    assert_eq!(read.finish(), vec![1, 2, 3, 4, 5, 6, 7, 8]);

    let refused = PlanRead::new(plan()).next_step(&name, false, true).unwrap_err();
    assert_eq!(
        refused.message(),
        "InvalidColdFlush: stream 'b/s' read requires object payload store"
    );
    let refused = PlanRead::new(plan()).next_step(&name, true, false).unwrap_err();
    assert_eq!(
        refused.message(),
        "InvalidColdFlush: stream 'b/s' read requires cold index page cache"
    );
}

#[test]
fn reads_are_cut_to_the_segment() {
    let object = |start: u64, end: u64| ObjectPayloadRef {
        start_offset: start,
        end_offset: end,
        s3_path: format!("o{start}"),
        object_size: end - start,
    };
    let segment = StreamReadColdIndexSegment {
        generation: 0,
        page_id: 0,
        read_start_offset: 5,
        len: 10,
    };
    let reads = clipped_reads(&segment, &vec![object(0, 8), object(8, 20)]);
    let spans: Vec<(u64, usize)> = reads.iter().map(|read| (read.start, read.len)).collect();
    assert_eq!(spans, vec![(5, 3), (8, 7)]);

    let plan = StreamReadPlan {
        offset: 0,
        next_offset: 15,
        content_type: "text/plain".to_owned(),
        segments: vec![
            StreamReadSegment::Hot(vec![1]),
            StreamReadSegment::ColdIndex(segment),
        ],
        up_to_date: true,
        closed: false,
        retained_record_range: None,
        record_range: None,
    };
    assert_eq!(
        segment_work(&stream("s"), &plan, 0, false, false),
        Ok(SegmentWork::Bytes(vec![1]))
    );
    assert_eq!(
        segment_work(&stream("s"), &plan, 1, true, true),
        Ok(SegmentWork::LookUp(segment))
    );
    assert!(segment_work(&stream("s"), &plan, 1, false, true).is_err());
    assert!(segment_work(&stream("s"), &plan, 1, true, false).is_err());
    let read = ObjectRead {
        object: object(0, 8),
        start: 5,
        len: 3,
    };
    assert_eq!(reads[0], read);
}

#[test]
fn a_materialized_read_comes_back() {
    let response = ReadStreamResponse {
        placement: placement(),
        offset: 3,
        next_offset: 5,
        content_type: "text/plain".to_owned(),
        payload: vec![1, 2],
        up_to_date: true,
        closed: false,
        retained_record_range: None,
        record_range: None,
    };
    let parts = GroupReadStreamParts::from_response(response.clone());
    assert!(!parts.payload_is_empty());
    assert_eq!(parts.into_response(vec![1, 2]), response);
}

#[test]
fn heads_snapshots_and_bootstraps_are_put_together() {
    let head = StreamHead {
        content_type: "text/plain".to_owned(),
        tail_offset: 9,
        hot_start_offset: 4,
        closed: false,
        stream_ttl_seconds: Some(60),
        stream_expires_at_ms: None,
        record_range: None,
    };
    let response = head_stream_after_access(
        &stream("s"),
        Some(head),
        Ok(Some(2)),
        Ok("sum".to_owned()),
        placement(),
    )
    .expect("head");
    assert_eq!(response.tail_offset, 9);
    assert_eq!(response.cold_hot_start_offset, 4);
    assert_eq!(response.snapshot_offset, Some(2));
    assert_eq!(
        head_stream_after_access(&stream("s"), None, Ok(None), Ok(String::new()), placement())
            .expect_err("missing")
            .code(),
        Some(StreamErrorCode::StreamNotFound)
    );

    let snapshot = StreamVisibleSnapshot {
        offset: 2,
        content_type: "text/plain".to_owned(),
        payload: vec![7],
    };
    let found = read_snapshot_response(
        &stream("s"),
        Ok(Some(snapshot.clone())),
        Some(2),
        placement(),
    )
    .expect("snapshot");
    assert!(found.up_to_date);
    assert_eq!(found.next_offset, 2);
    let behind = read_snapshot_response(
        &stream("s"),
        Ok(Some(snapshot.clone())),
        Some(5),
        placement(),
    )
    .expect("snapshot");
    assert!(!behind.up_to_date);
    assert_eq!(
        read_snapshot_response(&stream("s"), Ok(None), Some(5), placement())
            .expect_err("no snapshot")
            .code(),
        Some(StreamErrorCode::SnapshotNotFound)
    );

    let record = StreamMessageRecord {
        start_offset: 2,
        end_offset: 5,
    };
    assert_eq!(bootstrap_record_len(&stream("s"), record), Ok(3));
    let plan = StreamBootstrapPlan {
        snapshot: Some(snapshot),
        updates: vec![record],
        content_type: "text/plain".to_owned(),
        next_offset: 5,
        up_to_date: true,
        closed: false,
    };
    let bootstrap = bootstrap_response(plan, &vec![vec![1, 2, 3]], placement());
    assert_eq!(bootstrap.snapshot_offset, Some(2));
    assert_eq!(bootstrap.snapshot_payload, vec![7]);
    assert_eq!(bootstrap.updates.len(), 1);
    assert_eq!(bootstrap.updates[0].payload, vec![1, 2, 3]);
    assert_eq!(bootstrap.updates[0].next_offset, 5);

    let backlog = cold_hot_backlog_for(stream("s"), None, 40);
    assert_eq!((backlog.stream_hot_bytes, backlog.group_hot_bytes), (0, 40));
    assert_eq!(external_append_offset(&stream("s"), Some(4)), Ok(4));
    assert!(external_append_offset(&stream("s"), None).is_err());
}

#[test]
fn what_an_engine_cannot_do_it_says() {
    assert_eq!(
        unsupported(OptionalOperation::FlushCold, &stream("s")).message(),
        "cold flush is not supported for stream 'b/s'"
    );
    assert_eq!(unsupported_cold_gc().message(), "cold GC ack is not supported");
    assert_eq!(batch_of_next(Some(1), 3), vec![1]);
    assert_eq!(batch_of_next(Some(1), 0), Vec::<i32>::new());
    assert_eq!(
        stream_response_error(refused(StreamErrorCode::StreamGone, "gone")).message(),
        "StreamGone: gone"
    );
}

#[test]
fn errors_say_whether_to_try_again() {
    let place = placement();
    let status = |error: GroupEngineError| RuntimeError::group_engine(place, error).status();
    assert_eq!(
        status(GroupEngineError::forward_to_leader("elsewhere", Some(2), None)),
        ErrorStatus::Temporary
    );
    assert_eq!(
        status(GroupEngineError::raft_uncommitted_backpressure(1, 2, 2)),
        ErrorStatus::Temporary
    );
    assert_eq!(
        status(GroupEngineError::stream(StreamErrorCode::StreamGone, "gone")),
        ErrorStatus::Permanent
    );
    assert_eq!(status(GroupEngineError::new("broken")), ErrorStatus::Persistent);
    assert_eq!(RuntimeError::EmptyAppend.status(), ErrorStatus::Permanent);
    let error = RuntimeError::group_engine(
        place,
        GroupEngineError::Infra(GroupInfraError::proto_decode("f")),
    );
    assert_eq!(
        error.message(),
        "core 1 raft group 3 operation failed: ProtoDecode: protobuf raft payload missing f"
    );
    let error = RuntimeError::LiveReadBackpressure {
        core_id: CoreId(1),
        current_waiters: 8,
        limit: 8,
    };
    assert_eq!(error.message(), "core 1 live read waiters at 8 would exceed limit 8");
    assert_eq!(error.status(), ErrorStatus::Temporary);
}

#[test]
fn answers_are_held_against_their_commands() {
    let batch = append_batch("s", vec![b"a".to_vec(), Vec::new()]);
    assert!(is_answer(
        &batch,
        &MachineAnswer::Each(vec![Some(appended(0, 1, false)), None])
    ));
    assert!(!is_answer(
        &batch,
        &MachineAnswer::Each(vec![None, Some(appended(0, 1, false))])
    ));
    assert!(!is_answer(&batch, &MachineAnswer::One(appended(0, 1, false))));
    let create = StreamCommand::from(CreateStreamRequest::new(stream("s"), "text/plain"));
    assert!(!is_answer(
        &create,
        &MachineAnswer::NoBucket(StreamResponse::BucketCreated)
    ));
    assert!(is_answer(
        &create,
        &MachineAnswer::NoBucket(StreamResponse::BucketDeleted)
    ));
    assert!(!is_answer(
        &StreamCommand::CreateBucket {
            bucket_id: "b".to_owned()
        },
        &MachineAnswer::One(StreamResponse::BucketCreated)
    ));
    let mut engine = InMemoryGroupEngine::new();
    let one = MachineAnswer::One(appended(0, 1, false));
    assert!(engine.has_room_for(&one));
    engine.stream_append_counts.insert(stream("s"), u64::MAX);
    assert!(!engine.has_room_for(&one));
    assert!(engine.has_room_for(&MachineAnswer::NoBucket(StreamResponse::BucketDeleted)));
}
