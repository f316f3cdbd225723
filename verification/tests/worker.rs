//! The workers of a core: admission, batching, readers that wait.

use std::collections::VecDeque;
use ursula_runtime::admission::{RaftUncommittedBytesTracker, UncommittedBytesGuard};
use ursula_runtime::ids::{BucketStreamId, CoreId, RaftGroupId, ShardId, ShardPlacement};
use ursula_runtime::metrics::RuntimeMetricsInner;
use ursula_runtime::order::{stream_before, text_before};
use ursula_runtime::request::{
    AppendBatchRequest, AppendRequest, AppendResponse, ColdWriteAdmission, DeleteStreamResponse,
    GroupReadStreamParts, HeadStreamRequest, ReadStreamRequest, ReadStreamResponse,
};
use ursula_runtime::worker::actor::{
    finish, finish_guarded, finish_write, finish_write_guarded, handle, EmptyPlan, GroupOperation,
    GroupStep,
};
use ursula_runtime::worker::appends::{
    align_responses, finish_append_batch, prepare_append_batch_requests, AppendBatchEntry,
    FinishedAppendBatch, PendingAppendBatch,
};
use ursula_runtime::worker::batches::finish_append_batch_commands;
use ursula_runtime::worker::effects::{record_write_effects, write_effects, WriteEffects};
use ursula_runtime::worker::groups::{
    admit_command, check_not_installed, dispatch_group, early_raft_uncommitted_backpressure,
    group_lookup, groups_to_warm, mailbox_depth, record_send, Dispatched, SendAttempt,
};
use ursula_runtime::worker::requests::{
    coalesce, collect_append_batch_commands, Envelope, GroupRequest, StreamTouch, WaitReadCancel,
};
use ursula_runtime::worker::watchers::{
    cancel_read_watcher, keep_waiting, notify_outcome, take_read_watchers, wait_read_stream,
    NotifyOutcome, ReadWatcher, ReadWatchers, WaitOutcome,
};
use ursula_runtime::{
    GroupAppendBatchResponse, GroupEngineError, GroupWriteResponse, RaftUncommittedAdmission,
    RuntimeError,
};

fn placement() -> ShardPlacement {
    ShardPlacement {
        core_id: CoreId(0),
        shard_id: ShardId(0),
        raft_group_id: RaftGroupId(1),
    }
}

fn stream(name: &str) -> BucketStreamId {
    BucketStreamId::new("b", name)
}

fn batch(name: &str, sizes: &[usize]) -> AppendBatchRequest {
    AppendBatchRequest::new(
        stream(name),
        sizes.iter().map(|size| vec![0; *size]).collect(),
    )
}

fn append_response() -> AppendResponse {
    AppendResponse {
        placement: placement(),
        start_offset: 0,
        next_offset: 1,
        stream_append_count: 1,
        group_commit_index: 1,
        closed: false,
        deduplicated: false,
        producer: None,
        record_range: None,
    }
}

fn parts(payload: &[u8], up_to_date: bool, closed: bool) -> GroupReadStreamParts {
    GroupReadStreamParts::from_response(ReadStreamResponse {
        placement: placement(),
        offset: 0,
        next_offset: payload.len() as u64,
        content_type: "text/plain".to_owned(),
        payload: payload.to_vec(),
        up_to_date,
        closed,
        retained_record_range: None,
        record_range: None,
    })
}

fn watcher(name: &str, waiter_id: u64, offset: u64) -> ReadWatcher<u64> {
    ReadWatcher {
        waiter_id,
        request: ReadStreamRequest {
            stream_id: stream(name),
            offset,
            max_len: 10,
            now_ms: 0,
            record: None,
            max_records: None,
        },
        response: waiter_id,
    }
}

#[test]
fn unapplied_bytes_stay_within_the_limit() {
    let admission = RaftUncommittedAdmission {
        max_uncommitted_bytes_per_group: Some(10),
    };
    let mut tracker = RaftUncommittedBytesTracker::new(2);
    assert!(early_raft_uncommitted_backpressure(admission, &tracker, placement(), 10).is_none());
    let guard = admit_command(admission, &mut tracker, placement(), Some(7))
        .expect("within the limit")
        .expect("a guard");
    let error = admit_command(admission, &mut tracker, placement(), Some(4))
        .expect_err("above the limit");
    assert_eq!(
        error.message(),
        "core 0 raft group 1 operation failed: RaftUncommittedBackpressure: group uncommitted bytes 7 plus incoming 4 would exceed limit 10"
    );
    assert_eq!(tracker.load(RaftGroupId(1)), 7);
    guard.release(&mut tracker);
    assert_eq!(tracker.load(RaftGroupId(1)), 0);
    assert!(admit_command(admission, &mut tracker, placement(), None)
        .expect("no bytes")
        .is_none());
    let unlimited = RaftUncommittedAdmission::default();
    assert!(admit_command(unlimited, &mut tracker, placement(), Some(1 << 40))
        .expect("no limit")
        .is_none());
    assert_eq!(tracker.load(RaftGroupId(1)), 0);
}

#[test]
fn groups_are_looked_up_and_made_ready() {
    assert_eq!(group_lookup(true, false, placement()), Ok(true));
    assert_eq!(group_lookup(false, true, placement()), Ok(false));
    assert_eq!(
        group_lookup(false, false, placement()),
        Err(RuntimeError::GroupNotHosted {
            core_id: CoreId(0),
            raft_group_id: RaftGroupId(1)
        })
    );
    assert!(check_not_installed(true, placement()).is_err());
    assert_eq!(check_not_installed(false, placement()), Ok(()));
    assert_eq!(groups_to_warm(&vec![placement()], &vec![RaftGroupId(1)]), vec![]);
    assert_eq!(
        groups_to_warm(&vec![placement()], &vec![RaftGroupId(0)]),
        vec![placement()]
    );
    assert_eq!(mailbox_depth(10, 4), 6);
}

#[test]
fn a_full_mailbox_is_counted() {
    let mut metrics = RuntimeMetricsInner::new(1, 2);
    assert!(!record_send(&mut metrics, RaftGroupId(1), SendAttempt::Sent));
    assert!(record_send(&mut metrics, RaftGroupId(1), SendAttempt::Full));
    assert!(!record_send(&mut metrics, RaftGroupId(0), SendAttempt::Closed));
    assert_eq!(metrics.per_group_group_mailbox_depth.load(), vec![0, 2]);
    assert_eq!(metrics.per_group_group_mailbox_max_depth.load(), vec![1, 2]);
    assert_eq!(metrics.per_group_group_mailbox_full_events.load(), vec![0, 1]);
}

#[test]
fn a_request_goes_to_its_group_or_is_refused() {
    let admission = RaftUncommittedAdmission {
        max_uncommitted_bytes_per_group: Some(5),
    };
    let mut tracker = RaftUncommittedBytesTracker::new(2);
    let append = |size: usize| {
        Envelope::new(
            GroupRequest::Append {
                request: AppendRequest::new(stream("s"), size as u64),
            },
            size,
        )
    };
    match dispatch_group(admission, &mut tracker, placement(), Some(4), append(4)) {
        Dispatched::Forward(envelope) => assert!(envelope.raft_uncommitted.is_some()),
        Dispatched::Refused(_) => panic!("there is room"),
    }
    match dispatch_group(admission, &mut tracker, placement(), Some(2), append(2)) {
        Dispatched::Refused(Some((response, error))) => {
            assert_eq!(response, 2);
            assert_eq!(
                error,
                RuntimeError::group_engine(
                    placement(),
                    GroupEngineError::raft_uncommitted_backpressure(4, 2, 5)
                )
            );
        }
        _ => panic!("there is no room"),
    }
    let cancel = Envelope::new(
        GroupRequest::CancelWaitRead {
            stream_id: stream("s"),
            waiter_id: 1,
        },
        0_usize,
    );
    let (answer, _) = cancel.send_error(RuntimeError::EmptyAppend);
    assert!(answer.is_none());
}

#[test]
fn a_group_sorts_its_requests() {
    let mut watchers: ReadWatchers<u64> = ReadWatchers::new();
    let mut metrics = RuntimeMetricsInner::new(1, 2);
    let mut pending: VecDeque<Envelope<u64>> = VecDeque::new();
    pending.push_back(Envelope::new(
        GroupRequest::AppendBatch {
            request: batch("s", &[1]),
        },
        2,
    ));
    let mut step = |request: GroupRequest, accepts: bool| {
        handle(
            &mut watchers,
            &mut metrics,
            placement(),
            &mut pending,
            Envelope::new(request, 1),
            accepts,
        )
    };
    assert!(matches!(
        step(GroupRequest::PlanColdGc { max: 3 }, false),
        GroupStep::Nothing {
            plan: EmptyPlan::ColdGc,
            response: 1
        }
    ));
    assert!(matches!(
        step(GroupRequest::PlanColdGc { max: 3 }, true),
        GroupStep::Ask(Envelope {
            request: GroupRequest::PlanColdGc { max: 3 },
            ..
        })
    ));
    assert!(matches!(
        step(GroupRequest::SnapshotGroup, false),
        GroupStep::Ask(_)
    ));
    assert!(matches!(
        step(GroupRequest::ShutdownEngine, true),
        GroupStep::Shutdown { response: 1 }
    ));
    assert!(matches!(
        step(
            GroupRequest::CancelWaitRead {
                stream_id: stream("s"),
                waiter_id: 9
            },
            true
        ),
        GroupStep::Done
    ));
    match step(
        GroupRequest::WaitRead {
            request: watcher("s", 5, 0).request,
            waiter_id: 5,
        },
        true,
    ) {
        GroupStep::Wait { watcher } => assert_eq!(watcher.waiter_id, 5),
        _ => panic!("a reader waits"),
    }
    match step(
        GroupRequest::AppendBatch {
            request: batch("s", &[1]),
        },
        true,
    ) {
        GroupStep::Collect { batch } => {
            let ids: Vec<u64> = batch.iter().map(|envelope| envelope.response).collect();
            assert_eq!(ids, vec![1, 2]);
        }
        _ => panic!("batches are collected"),
    }
    assert!(pending.is_empty());
}

#[test]
fn an_answer_is_counted_as_its_operation_asks() {
    let mut metrics = RuntimeMetricsInner::new(1, 2);
    let read: Result<u64, GroupEngineError> = Err(GroupEngineError::new("broken"));
    let error = finish(&mut metrics, placement(), GroupOperation::Timed, 0, read, 10)
        .expect_err("broken");
    assert_eq!(error.message(), "core 0 raft group 1 operation failed: broken");
    assert_eq!(metrics.per_core_group_engine_exec_ns.load(), vec![10]);
    let write = finish_write(
        &mut metrics,
        placement(),
        GroupOperation::HotWrite,
        7,
        Err(GroupEngineError::cold_backpressure(stream("s"), 1, 8, 5)),
        10,
        20,
    );
    assert!(write.result.is_err());
    assert!(!write.effects.notifies);
    assert_eq!(metrics.per_core_group_engine_exec_ns.load(), vec![10]);
    assert_eq!(metrics.per_group_cold_backpressure_events.load(), vec![0, 1]);
    let write = finish_write(
        &mut metrics,
        placement(),
        GroupOperation::HotWrite,
        7,
        Ok(GroupWriteResponse::Append(append_response())),
        10,
        20,
    );
    assert!(write.effects.notifies);
    assert_eq!(metrics.per_core_group_engine_exec_ns.load(), vec![20]);
    assert_eq!(metrics.per_group_appends.load(), vec![0, 1]);
    assert_eq!(metrics.per_core_mutation_apply_ns.load(), vec![20]);
    let request = GroupRequest::AckColdGc { up_to_seq: 1 };
    assert_eq!(request.operation(), GroupOperation::Untimed);
}

#[test]
fn counted_bytes_are_back_when_the_answer_is_handed_out() {
    let mut metrics = RuntimeMetricsInner::new(1, 2);
    let mut tracker = RaftUncommittedBytesTracker::new(2);
    let group = placement().raft_group_id;
    let append = || GroupRequest::Append {
        request: AppendRequest::from_bytes(stream("s"), vec![1, 2, 3]),
    };
    let admission = RaftUncommittedAdmission {
        max_uncommitted_bytes_per_group: Some(10),
    };
    for answer in [
        Ok(GroupWriteResponse::Append(append_response())),
        Err(GroupEngineError::new("broken")),
    ] {
        let envelope = Envelope::new(append(), 7u64);
        let forwarded = match dispatch_group(admission, &mut tracker, placement(), Some(3), envelope) {
            Dispatched::Forward(envelope) => envelope,
            Dispatched::Refused(_) => panic!("there is room"),
        };
        assert_eq!(tracker.load(group), 3);
        let step = handle(
            &mut ReadWatchers::new(),
            &mut metrics,
            placement(),
            &mut VecDeque::new(),
            forwarded,
            true,
        );
        let Envelope {
            request,
            response,
            raft_uncommitted,
        } = match step {
            GroupStep::Ask(envelope) => envelope,
            _ => panic!("the engine is asked"),
        };
        let is_ok = answer.is_ok();
        let (response, finished) = finish_write_guarded(
            &mut metrics,
            &mut tracker,
            placement(),
            request.operation(),
            3,
            raft_uncommitted,
            response,
            answer,
            1,
            1,
        );
        assert_eq!(response, 7);
        assert_eq!(finished.result.is_ok(), is_ok);
        assert_eq!(tracker.load(group), 0);
    }
    let guard = UncommittedBytesGuard::new(&mut tracker, group, 5);
    let other = UncommittedBytesGuard::new(&mut tracker, group, 2);
    let (response, result) = finish_guarded(
        &mut metrics,
        &mut tracker,
        placement(),
        GroupOperation::HotWrite,
        5,
        Some(guard),
        8u64,
        Err::<(), GroupEngineError>(GroupEngineError::new("broken")),
        1,
    );
    assert_eq!((response, result.is_err(), tracker.load(group)), (8, true, 2));
    let batch = FinishedAppendBatch {
        stream_id: stream("s"),
        response: 9u64,
        raft_uncommitted: Some(other),
        result: Err(RuntimeError::EmptyAppend),
        notify: false,
    };
    assert_eq!(batch.settle(&mut tracker).0, 9);
    assert_eq!(tracker.load(group), 0);
    let refused = Envelope {
        request: append(),
        response: 10u64,
        raft_uncommitted: Some(UncommittedBytesGuard::new(&mut tracker, group, 4)),
    };
    let answer = refused.refuse(&mut tracker, RuntimeError::EmptyAppend);
    assert_eq!(answer, Some((10, RuntimeError::EmptyAppend)));
    assert_eq!(tracker.load(group), 0);
}

#[test]
fn batches_are_finished_together() {
    let pending = |id: u64| PendingAppendBatch {
        stream_id: stream("s"),
        incoming_bytes: 4,
        response: id,
        raft_uncommitted: None,
    };
    let admission = ColdWriteAdmission {
        max_hot_bytes_per_group: Some(10),
    };
    let mut metrics = RuntimeMetricsInner::new(1, 2);
    let finished = finish_append_batch_commands(
        &mut metrics,
        placement(),
        admission,
        vec![pending(1), pending(2)],
        Ok(vec![
            Ok(GroupWriteResponse::AppendBatch(GroupAppendBatchResponse {
                placement: placement(),
                items: vec![Ok(append_response()), Ok(append_response())],
            })),
            Err(GroupEngineError::cold_backpressure(stream("s"), 8, 12, 10)),
        ]),
        &vec![30, 40],
    );
    assert!(finished[0].notify && finished[0].result.is_ok());
    assert!(!finished[1].notify && finished[1].result.is_err());
    assert_eq!(metrics.per_core_appends.load(), vec![2]);
    assert_eq!(metrics.per_group_mutation_apply_ns.load(), vec![0, 30]);
    assert_eq!(metrics.cold_backpressure_bytes.load_relaxed(), 4);
    let failed = finish_append_batch_commands(
        &mut metrics,
        placement(),
        admission,
        vec![pending(3)],
        Ok(vec![]),
        &vec![1],
    );
    assert_eq!(
        failed[0].result.as_ref().expect_err("miscounted").message(),
        "core 0 raft group 1 operation failed: batched append response count 0 does not match request count 1"
    );
}

#[test]
fn requests_say_what_they_bring() {
    let append = GroupRequest::Append {
        request: AppendRequest::from_bytes(stream("s"), vec![1, 2, 3]),
    };
    assert_eq!(append.incoming_bytes(), Ok(Some(3)));
    assert_eq!(append.stream(), Some(&stream("s")));
    let empty = GroupRequest::Append {
        request: AppendRequest::from_bytes(stream("s"), Vec::new()),
    };
    assert_eq!(empty.incoming_bytes(), Err(RuntimeError::EmptyAppend));
    let batched = GroupRequest::AppendBatch {
        request: batch("s", &[2, 0, 5]),
    };
    assert_eq!(batched.incoming_bytes(), Ok(Some(7)));
    let head = GroupRequest::HeadStream {
        request: HeadStreamRequest {
            stream_id: stream("s"),
            now_ms: 0,
        },
    };
    assert_eq!(head.incoming_bytes(), Ok(None));
    assert_eq!(
        head.touch_before(),
        Some(StreamTouch {
            now_ms: 0,
            renew_ttl: false
        })
    );
    let read = GroupRequest::ReadStream {
        request: watcher("s", 1, 0).request,
    };
    assert!(read.touch_before().expect("a read touches").renew_ttl);
    assert_eq!(GroupRequest::SnapshotGroup.touch_before(), None);
    assert!(head.expects_response());
    let cancel = WaitReadCancel::new(stream("s"), placement(), 4)
        .into_cancel()
        .expect("a request");
    assert!(!cancel.expects_response());
    let mut answered = WaitReadCancel::new(stream("s"), placement(), 4);
    answered.disarm();
    assert!(answered.into_cancel().is_none());
}

#[test]
fn collecting_keeps_the_order() {
    let envelope = |name: &str, id: u64| {
        Envelope::new(
            GroupRequest::AppendBatch {
                request: batch(name, &[1]),
            },
            id,
        )
    };
    let mut pending: VecDeque<Envelope<u64>> = VecDeque::new();
    pending.push_back(envelope("a", 1));
    pending.push_back(envelope("b", 2));
    pending.push_back(Envelope::new(GroupRequest::SnapshotGroup, 3));
    pending.push_back(envelope("c", 4));
    let mut taken = vec![envelope("z", 0)];
    collect_append_batch_commands(&mut pending, &mut taken);
    let ids: Vec<u64> = taken.iter().map(|envelope| envelope.response).collect();
    assert_eq!(ids, vec![0, 1, 2]);
    let left: Vec<u64> = pending.iter().map(|envelope| envelope.response).collect();
    assert_eq!(left, vec![3, 4]);
    assert!(coalesce(&mut pending, &mut taken, Some(envelope("d", 5))));
    assert!(!coalesce(
        &mut pending,
        &mut taken,
        Some(Envelope::new(GroupRequest::SnapshotGroup, 6))
    ));
    assert!(!coalesce(&mut pending, &mut taken, None));
    assert_eq!(taken.len(), 4);
    assert_eq!(pending[0].response, 6);
}

#[test]
fn batches_get_their_own_answers() {
    let (requests, mut pending) = prepare_append_batch_requests(vec![
        AppendBatchEntry {
            request: batch("s", &[2, 3]),
            response: 1_u64,
            raft_uncommitted: None,
        },
        AppendBatchEntry {
            request: batch("t", &[4]),
            response: 2,
            raft_uncommitted: None,
        },
    ]);
    assert_eq!(requests.len(), 2);
    assert_eq!(requests[1].stream_id, stream("t"));
    assert_eq!(pending[0].incoming_bytes, 5);
    let answers = align_responses(
        2,
        Ok(vec![
            Ok(GroupWriteResponse::AppendBatch(GroupAppendBatchResponse {
                placement: placement(),
                items: vec![Ok(append_response()), Err(GroupEngineError::new("no"))],
            })),
            Ok(GroupWriteResponse::Append(append_response())),
        ]),
        placement(),
    );
    assert!(answers[0].is_ok());
    assert_eq!(
        answers[1].as_ref().expect_err("wrong answer").message(),
        format!(
            "core 0 raft group 1 operation failed: unexpected batched append response: {:?}",
            GroupWriteResponse::Append(append_response())
        )
    );
    let mut metrics = RuntimeMetricsInner::new(1, 2);
    let mut answers = answers.into_iter();
    let finished = finish_append_batch(
        &mut metrics,
        placement(),
        ColdWriteAdmission::default(),
        pending.remove(0),
        answers.next().expect("answer"),
        50,
    );
    assert!(finished.notify);
    assert_eq!(finished.response, 1);
    assert_eq!(finished.result.expect("items").items.len(), 2);
    assert_eq!(metrics.per_core_appends.load(), vec![1]);
    assert_eq!(metrics.per_group_mutation_apply_ns.load(), vec![0, 50]);

    let miscounted = align_responses(2, Ok(vec![]), placement());
    assert_eq!(
        miscounted[1].as_ref().expect_err("miscounted").message(),
        "core 0 raft group 1 operation failed: batched append response count 0 does not match request count 2"
    );
    let failed = align_responses(1, Err(RuntimeError::EmptyAppend), placement());
    assert_eq!(failed, vec![Err(RuntimeError::EmptyAppend)]);
}

#[test]
fn writes_have_their_effects() {
    let effects = write_effects(&GroupWriteResponse::Append(append_response()));
    assert_eq!(
        effects,
        WriteEffects {
            appends: 1,
            mutations: 1,
            notes_backlog: true,
            notifies: true
        }
    );
    let mut repeated = append_response();
    repeated.deduplicated = true;
    assert_eq!(
        write_effects(&GroupWriteResponse::Append(repeated)),
        WriteEffects {
            appends: 0,
            mutations: 0,
            notes_backlog: false,
            notifies: false
        }
    );
    let deleted = write_effects(&GroupWriteResponse::DeleteStream(DeleteStreamResponse {
        placement: placement(),
        group_commit_index: 1,
        hard_deleted: true,
        parent_to_release: None,
    }));
    assert!(deleted.notifies);
    assert_eq!(deleted.appends, 0);
    let mut metrics = RuntimeMetricsInner::new(1, 2);
    record_write_effects(&mut metrics, placement(), effects, 9);
    assert_eq!(metrics.per_group_appends.load(), vec![0, 1]);
    assert_eq!(metrics.per_core_mutation_apply_ns.load(), vec![9]);
}

#[test]
fn a_reader_waits_until_there_is_something() {
    let mut watchers: ReadWatchers<u64> = ReadWatchers::new();
    let mut metrics = RuntimeMetricsInner::new(1, 2);
    let answered = wait_read_stream(
        &mut watchers,
        &mut metrics,
        placement(),
        watcher("s", 1, 0),
        Ok(parts(b"abc", true, false)),
        false,
        None,
    );
    assert!(matches!(answered, WaitOutcome::Respond { response: 1, .. }));
    for id in [2, 3] {
        let waits = wait_read_stream(
            &mut watchers,
            &mut metrics,
            placement(),
            watcher("s", id, 0),
            Ok(parts(b"", true, false)),
            false,
            Some(2),
        );
        assert!(matches!(waits, WaitOutcome::Waiting));
    }
    let refused = wait_read_stream(
        &mut watchers,
        &mut metrics,
        placement(),
        watcher("s", 4, 0),
        Ok(parts(b"", true, false)),
        false,
        Some(2),
    );
    match refused {
        WaitOutcome::Refused { error, .. } => assert_eq!(
            error,
            RuntimeError::LiveReadBackpressure {
                core_id: CoreId(0),
                current_waiters: 2,
                limit: 2
            }
        ),
        _ => panic!("the limit is reached"),
    }
    assert_eq!(watchers.live_read_watcher_count(), 2);
    assert_eq!(metrics.per_core_live_read_waiters.load(), vec![2]);
    cancel_read_watcher(&mut watchers, &mut metrics, CoreId(0), &stream("s"), 2);
    assert_eq!(watchers.live_read_watcher_count(), 1);
    assert_eq!(metrics.per_core_live_read_waiters.load(), vec![1]);
}

#[test]
fn readers_are_woken_by_request() {
    let mut watchers: ReadWatchers<u64> = ReadWatchers::new();
    let mut metrics = RuntimeMetricsInner::new(1, 2);
    for (id, offset) in [(1, 0), (2, 7), (3, 0)] {
        wait_read_stream(
            &mut watchers,
            &mut metrics,
            placement(),
            watcher("s", id, offset),
            Ok(parts(b"", true, false)),
            false,
            None,
        );
    }
    let groups = take_read_watchers(&mut watchers, &mut metrics, CoreId(0), &stream("s"));
    let ids: Vec<Vec<u64>> = groups
        .iter()
        .map(|group| group.iter().map(|watcher| watcher.waiter_id).collect())
        .collect();
    assert_eq!(ids, vec![vec![1, 3], vec![2]]);
    assert_eq!(metrics.per_core_live_read_waiters.load(), vec![0]);
    let mut groups = groups.into_iter();
    let first = groups.next().expect("group");
    match notify_outcome(first, Ok(parts(b"x", true, false)), placement()) {
        NotifyOutcome::Respond { watchers, .. } => assert_eq!(watchers.len(), 2),
        _ => panic!("there is something to read"),
    }
    let second = groups.next().expect("group");
    match notify_outcome(second, Ok(parts(b"", true, false)), placement()) {
        NotifyOutcome::Wait(pending) => {
            keep_waiting(&mut watchers, &mut metrics, CoreId(0), &stream("s"), pending)
        }
        _ => panic!("there is nothing to read"),
    }
    assert_eq!(metrics.per_core_live_read_waiters.load(), vec![1]);
    let closed = notify_outcome(
        vec![watcher("s", 9, 0)],
        Ok(parts(b"", true, true)),
        placement(),
    );
    assert!(matches!(closed, NotifyOutcome::Respond { .. }));
    let failed = notify_outcome(
        vec![watcher("s", 9, 0)],
        Err(GroupEngineError::new("broken")),
        placement(),
    );
    assert!(matches!(failed, NotifyOutcome::Fail { .. }));
}

#[test]
fn streams_are_ordered_by_bucket_and_name() {
    assert!(text_before(&"a".to_owned(), &"ab".to_owned()));
    assert!(!text_before(&"b".to_owned(), &"ab".to_owned()));
    assert!(!text_before(&"a".to_owned(), &"a".to_owned()));
    assert!(stream_before(
        &BucketStreamId::new("a", "z"),
        &BucketStreamId::new("b", "a")
    ));
    assert!(stream_before(
        &BucketStreamId::new("a", "y"),
        &BucketStreamId::new("a", "z")
    ));
}
