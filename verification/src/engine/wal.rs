//! An engine that writes down what changes before it changes.
//!
//! A write is decided first, then written to the log, and applied only when the
//! log has it.

use vstd::prelude::*;
use crate::command::GroupWriteCommand;
use crate::engine::access;
use crate::engine::access::{
    check_cold_write_admission_bytes, must_log, payload_bytes, AccessAnswer,
};
use crate::engine::admission_laws;
use crate::engine::batch;
use crate::engine::errors;
use crate::engine::errors::GroupEngineError;
use crate::engine::in_memory::InMemoryGroupEngine;
use crate::engine::laws;
use crate::engine::responses::GroupWriteResponse;
use crate::engine::snapshot;
use crate::engine::snapshot::snapshot_counters;
use crate::engine::state;
use crate::engine::state::{EngineState, MachineAnswer, Refusal, WriteOutcome};
use crate::ids::{BucketStreamId, CoreId, RaftGroupId, ShardId, ShardPlacement};
use crate::request::{ColdWriteAdmission, StreamAppendCount, TouchStreamAccessResponse};
use crate::stream;
use crate::stream::{StreamCommand, StreamResponse};
use crate::text;
use crate::text::decimal_text;

verus! {

/// An engine and whether its log could be read.
#[derive(Debug)]
pub struct WalGroupEngine {
    pub inner: InMemoryGroupEngine,
    pub init_error: Option<String>,
}

/// One record of a log.
#[derive(Debug, PartialEq, Eq)]
pub enum WalRecord {
    Command { command: GroupWriteCommand },
    Snapshot {
        group_commit_index: u64,
        stream_snapshot: Vec<u8>,
        stream_append_counts: Vec<StreamAppendCount>,
    },
}

/// A record that is replayed, with what the stream layer said to it.
pub enum ReplayedRecord {
    Command { command: GroupWriteCommand, answers: Vec<MachineAnswer> },
    Snapshot {
        group_commit_index: u64,
        restored: Result<Vec<BucketStreamId>, String>,
        stream_append_counts: Vec<StreamAppendCount>,
    },
}

/// What was done to a log when it failed.
#[derive(Debug, Clone, Copy, PartialEq, Eq, Structural)]
pub enum WalStep {
    Read,
    Write,
    Sync,
}

/// Where a group's log is, below the root of all logs.
pub open spec fn log_path_text(placement: ShardPlacement) -> Seq<char> {
    "core-"@ + text::decimal(placement.core_id.0 as nat) + "/group-"@ + text::decimal(
        placement.raft_group_id.0 as nat,
    ) + ".jsonl"@
}

/// Where a group's log is, below the root of all logs.
pub fn group_log_path(placement: ShardPlacement) -> (r: String)
    ensures
        r@ == log_path_text(placement),
{
    let mut path = "core-".to_owned();
    path.append(decimal_text(placement.core_id.0 as u128).as_str());
    path.append("/group-");
    path.append(decimal_text(placement.raft_group_id.0 as u128).as_str());
    path.append(".jsonl");
    path
}

/// The words of a log's failure.
pub open spec fn wal_failure_text(step: WalStep, path: Seq<char>, detail: Seq<char>) -> Seq<char> {
    (match step {
        WalStep::Read => "read WAL '"@,
        WalStep::Write => "write WAL '"@,
        WalStep::Sync => "sync WAL '"@,
    }) + path + "': "@ + detail
}

/// The error for a log's failure.
pub fn wal_failure(step: WalStep, path: &str, detail: &str) -> (r: GroupEngineError)
    ensures
        errors::is_internal_error(r, wal_failure_text(step, path@, detail@)),
{
    let mut text = match step {
        WalStep::Read => "read WAL '".to_owned(),
        WalStep::Write => "write WAL '".to_owned(),
        WalStep::Sync => "sync WAL '".to_owned(),
    };
    text.append(path);
    text.append("': ");
    text.append(detail);
    GroupEngineError::new(text.as_str())
}

/// Whether an access has to be written down: whether it changed something.
pub open spec fn access_is_logged(answer: AccessAnswer) -> bool {
    answer matches AccessAnswer::Touched(StreamResponse::Accessed { changed, expired }) && (changed
        || expired)
}

/// Whether an access has to be written down.
pub fn access_must_log(answer: &AccessAnswer) -> (r: bool)
    ensures
        r == access_is_logged(*answer),
{
    match answer {
        AccessAnswer::Touched(StreamResponse::Accessed { changed, expired }) => *changed
            || *expired,
        _ => false,
    }
}

impl WalGroupEngine {
    pub open spec fn wf(&self) -> bool {
        self.inner.wf()
    }

    /// An engine over a log: with what the log has led to, or broken for good where
    /// the log could not be replayed.
    pub fn open(replayed: Result<InMemoryGroupEngine, GroupEngineError>) -> (r: Self)
        requires
            replayed matches Ok(inner) ==> inner.wf(),
        ensures
            r.wf(),
            match replayed {
                Ok(inner) => r.inner == inner && r.init_error is None,
                Err(error) => r.inner@ == (EngineState { commit_index: 0, counts: Map::empty() })
                    && r.init_error is Some && r.init_error->0@ == errors::engine_error_text(error),
            },
    {
        match replayed {
            Ok(inner) => WalGroupEngine { inner, init_error: None },
            Err(error) => WalGroupEngine {
                inner: InMemoryGroupEngine::new(),
                init_error: Some(error.message()),
            },
        }
    }

    /// Refuses everything where the log could not be replayed.
    pub fn ensure_ready(&self) -> (r: Result<(), GroupEngineError>)
        ensures
            match self.init_error {
                Some(message) => r is Err && errors::is_internal_error(r->Err_0, message@),
                None => r is Ok,
            },
    {
        match &self.init_error {
            Some(message) => Err(GroupEngineError::new(message.as_str())),
            None => Ok(()),
        }
    }

    /// Decides on a write: whether it has to be written to the log, or is held
    /// back.
    pub fn begin_write(
        &self,
        command: &StreamCommand,
        answer: &MachineAnswer,
        admission: ColdWriteAdmission,
        group_hot_bytes: u64,
    ) -> (r: Result<bool, GroupEngineError>)
        requires
            state::answers(*command, *answer),
            access::incoming_bytes(*command) <= u64::MAX,
        ensures
            match self.init_error {
                Some(message) => r is Err && errors::is_internal_error(r->Err_0, message@),
                None => forall|state: EngineState, placement: ShardPlacement|
                    {
                        let outcome = (#[trigger] state::applied(
                            state,
                            *command,
                            *answer,
                            placement,
                        )).1;
                        if access::brings_hot_bytes(*command) && laws::is_logged(outcome, true)
                            && !access::admits(
                            admission,
                            group_hot_bytes,
                            access::incoming_bytes(*command),
                        ) {
                            r is Err && r->Err_0 == access::held_back(
                                access::hot_stream(*command),
                                group_hot_bytes,
                                access::incoming_bytes(*command),
                                admission.max_hot_bytes_per_group->0,
                            )
                        } else {
                            r == Ok::<bool, GroupEngineError>(
                                laws::is_logged(
                                    outcome,
                                    admission.max_hot_bytes_per_group is Some,
                                ),
                            )
                        }
                    },
            },
            admission.max_hot_bytes_per_group matches Some(limit) ==> {
                let bytes = admission_laws::payload_len(*command);
                &&& admission_laws::is_news(*command, *answer) && r is Ok ==> bytes == 0
                    || group_hot_bytes + bytes <= limit || limit == u64::MAX
                &&& admission_laws::is_news(*command, *answer) && bytes > 0 && group_hot_bytes
                    + bytes > limit && limit < u64::MAX ==> r is Err
            },
            admission_laws::is_news(*command, *answer) && r is Ok ==> r->Ok_0,
    {
        proof {
            if command is CreateStream || command is Append || command is AppendBatch {
                let state = self.inner@;
                let placement = arbitrary::<ShardPlacement>();
                admission_laws::lemma_news(state, *command, *answer, placement);
                admission_laws::law_every_change_is_logged(
                    state,
                    *command,
                    *answer,
                    placement,
                    admission.max_hot_bytes_per_group is Some,
                );
            }
            admission_laws::lemma_payload_len(*command);
        }
        match self.ensure_ready() {
            Ok(()) => {},
            Err(error) => {
                return Err(error);
            },
        }
        if admission.is_enabled() && must_log(command, answer, true) {
            let checked = match command {
                StreamCommand::CreateStream { stream_id, initial_payload, .. } =>
                    check_cold_write_admission_bytes(
                        stream_id,
                        admission,
                        group_hot_bytes,
                        initial_payload.len() as u64,
                    ),
                StreamCommand::Append { stream_id, payload, .. } =>
                    check_cold_write_admission_bytes(
                        stream_id,
                        admission,
                        group_hot_bytes,
                        payload.len() as u64,
                    ),
                StreamCommand::AppendBatch { stream_id, payloads, .. } =>
                    check_cold_write_admission_bytes(
                        stream_id,
                        admission,
                        group_hot_bytes,
                        payload_bytes(payloads),
                    ),
                _ => Ok(()),
            };
            if let Err(error) = checked {
                return Err(error);
            }
        }
        Ok(must_log(command, answer, admission.is_enabled()))
    }

    /// Applies a write whose log record, where it needed one, has been written; a
    /// log that failed leaves everything as it was.
    pub fn finish_write(
        &mut self,
        command: &StreamCommand,
        answer: MachineAnswer,
        placement: ShardPlacement,
        log: Result<(), GroupEngineError>,
    ) -> (r: Result<GroupWriteResponse, GroupEngineError>)
        requires
            old(self).wf(),
            state::answers(*command, answer),
            old(self).inner@.has_room(state::weight(answer)),
        ensures
            final(self).wf(),
            final(self).init_error == old(self).init_error,
            match log {
                Err(error) => final(self).inner@ == old(self).inner@ && r == Err::<
                    GroupWriteResponse,
                    GroupEngineError,
                >(error),
                Ok(()) => {
                    let (after, outcome) = state::applied(
                        old(self).inner@,
                        *command,
                        answer,
                        placement,
                    );
                    final(self).inner@ == after && state::is_outcome(r, outcome)
                },
            },
    {
        match log {
            Err(error) => Err(error),
            Ok(()) => self.inner.apply_committed_write(command, answer, placement),
        }
    }

    /// Makes sure that a stream may be used, once the access has been written to
    /// the log where that was needed.
    pub fn finish_access(
        &mut self,
        stream_id: &BucketStreamId,
        now_ms: u64,
        renew_ttl: bool,
        answer: AccessAnswer,
        placement: ShardPlacement,
        log: Result<(), GroupEngineError>,
    ) -> (r: Result<Option<TouchStreamAccessResponse>, GroupEngineError>)
        requires
            old(self).wf(),
            old(self).inner@.has_room(1),
        ensures
            final(self).wf(),
            final(self).init_error == old(self).init_error,
            match log {
                Err(error) => final(self).inner@ == old(self).inner@ && r == Err::<
                    Option<TouchStreamAccessResponse>,
                    GroupEngineError,
                >(error),
                Ok(()) => {
                    let (after, result) = access::accessed(
                        old(self).inner@,
                        stream_id@,
                        answer,
                        placement,
                    );
                    &&& final(self).inner@ == after
                    &&& match result {
                        Ok(response) => r == Ok::<
                            Option<TouchStreamAccessResponse>,
                            GroupEngineError,
                        >(response),
                        Err(refusal) => r is Err && state::is_refusal(r->Err_0, refusal),
                    }
                },
            },
    {
        match log {
            Err(error) => Err(error),
            Ok(()) => self.inner.ensure_stream_access(
                stream_id,
                now_ms,
                renew_ttl,
                answer,
                placement,
            ),
        }
    }

    /// Decides on a snapshot: whether it can be installed and may be written to
    /// the log.
    pub fn begin_install(
        &self,
        restored: &Result<Vec<BucketStreamId>, String>,
        stream_append_counts: &Vec<StreamAppendCount>,
    ) -> (r: Result<(), GroupEngineError>)
        ensures
            match self.init_error {
                Some(message) => r is Err && errors::is_internal_error(r->Err_0, message@),
                None => forall|index: u64|
                    match #[trigger] snapshot::installed(
                        index,
                        *restored,
                        stream_append_counts@,
                    ) {
                        Ok(_) => r is Ok,
                        Err(refusal) => r is Err && state::is_refusal(r->Err_0, refusal),
                    },
            },
    {
        match self.ensure_ready() {
            Ok(()) => {},
            Err(error) => {
                return Err(error);
            },
        }
        assert(snapshot::installed(0, *restored, stream_append_counts@) is Ok
            || snapshot::installed(0, *restored, stream_append_counts@) is Err);
        match snapshot_counters(restored, stream_append_counts) {
            Ok(_) => Ok(()),
            Err(error) => Err(error),
        }
    }

    /// Installs a snapshot once the log has it.
    pub fn finish_install(
        &mut self,
        group_commit_index: u64,
        restored: &Result<Vec<BucketStreamId>, String>,
        stream_append_counts: &Vec<StreamAppendCount>,
        log: Result<(), GroupEngineError>,
    ) -> (r: Result<(), GroupEngineError>)
        requires
            old(self).wf(),
        ensures
            final(self).wf(),
            final(self).init_error == old(self).init_error,
            match log {
                Err(error) => *final(self) == *old(self) && r == Err::<(), GroupEngineError>(error),
                Ok(()) => match snapshot::installed(
                    group_commit_index,
                    *restored,
                    stream_append_counts@,
                ) {
                    Ok(after) => r is Ok && final(self).inner@ == after,
                    Err(refusal) => r is Err && state::is_refusal(r->Err_0, refusal)
                        && *final(self) == *old(self),
                },
            },
    {
        match log {
            Err(error) => Err(error),
            Ok(()) => self.inner.install_snapshot_parts(
                group_commit_index,
                restored,
                stream_append_counts,
            ),
        }
    }
}

/// Where a replayed group is said to live; it shows in no counter.
pub open spec fn nowhere() -> ShardPlacement {
    ShardPlacement { core_id: CoreId(0), shard_id: ShardId(0), raft_group_id: RaftGroupId(0) }
}

/// The words of a refusal.
pub open spec fn refusal_text(refusal: Refusal) -> Seq<char> {
    match refusal {
        Refusal::Stream { code, message, .. } => stream::code_name(code) + ": "@ + message,
        Refusal::Internal { message } => message,
    }
}

/// Whether the answers of a record can be the answers to its commands.
#[verifier::opaque]
pub open spec fn is_answered(record: ReplayedRecord) -> bool {
    match record {
        ReplayedRecord::Command { command, answers } => match command {
            GroupWriteCommand::Stream(command) => batch::answers_all(seq![command], answers@),
            GroupWriteCommand::Batch { commands } => batch::answers_all(commands@, answers@),
        },
        ReplayedRecord::Snapshot { .. } => true,
    }
}

/// How many writes a record can stand for.
#[verifier::opaque]
pub open spec fn record_weight(record: ReplayedRecord) -> int {
    match record {
        ReplayedRecord::Command { answers, .. } => batch::total_weight(answers@),
        ReplayedRecord::Snapshot { .. } => 0,
    }
}

/// What a record leads to, or why it cannot be replayed.
#[verifier::opaque]
pub open spec fn replayed_record(state: EngineState, record: ReplayedRecord) -> Result<
    EngineState,
    Refusal,
> {
    match record {
        ReplayedRecord::Command { command, answers } => match command {
            GroupWriteCommand::Stream(command) => {
                let (after, outcome) = state::applied(state, command, answers@[0], nowhere());
                match outcome {
                    WriteOutcome::Refused(refusal) => Err(refusal),
                    _ => Ok(after),
                }
            },
            GroupWriteCommand::Batch { commands } => Ok(
                batch::applied_all(state, commands@, answers@, nowhere()).0,
            ),
        },
        ReplayedRecord::Snapshot { group_commit_index, restored, stream_append_counts } =>
            snapshot::installed(group_commit_index, restored, stream_append_counts@),
    }
}

/// What a log leads to, or the words for the first record that cannot be
/// replayed.
pub open spec fn replayed_log(records: Seq<ReplayedRecord>, path: Seq<char>) -> Result<
    EngineState,
    Seq<char>,
>
    decreases records.len(),
{
    if records.len() == 0 {
        Ok(EngineState { commit_index: 0, counts: Map::empty() })
    } else {
        match replayed_log(records.drop_last(), path) {
            Err(words) => Err(words),
            Ok(state) => match replayed_record(state, records.last()) {
                Ok(after) => Ok(after),
                Err(refusal) => Err(
                    (if records.last() is Command {
                        "replay WAL command '"@
                    } else {
                        "replay WAL snapshot '"@
                    }) + path + "' record "@ + text::decimal(records.len()) + ": "@ + refusal_text(
                        refusal,
                    ),
                ),
            },
        }
    }
}

/// Whether a record finds room for its writes when its turn comes.
#[verifier::opaque]
pub open spec fn finds_room(records: Seq<ReplayedRecord>, path: Seq<char>, i: int) -> bool {
    replayed_log(records.take(i), path) matches Ok(state) ==> state.has_room(
        record_weight(records[i]),
    )
}

/// Whether each record finds room for its writes when its turn comes.
pub open spec fn log_has_room(records: Seq<ReplayedRecord>, path: Seq<char>) -> bool {
    forall|i: int| 0 <= i < records.len() ==> #[trigger] finds_room(records, path, i)
}

proof fn lemma_finds_room(
    records: Seq<ReplayedRecord>,
    path: Seq<char>,
    i: int,
    state: EngineState,
)
    requires
        replayed_log(records.take(i), path) == Ok::<EngineState, Seq<char>>(state),
    ensures
        finds_room(records, path, i) == state.has_room(record_weight(records[i])),
{
    reveal(finds_room);
}

/// What comes behind a record that cannot be replayed finds room.
proof fn lemma_failed_log_has_room(records: Seq<ReplayedRecord>, path: Seq<char>, n: int)
    requires
        0 <= n <= records.len(),
        replayed_log(records.take(n), path) is Err,
        forall|i: int| 0 <= i < n ==> #[trigger] finds_room(records, path, i),
    ensures
        log_has_room(records, path),
{
    reveal(finds_room);
    assert forall|i: int| 0 <= i < records.len() implies #[trigger] finds_room(
        records,
        path,
        i,
    ) by {
        if i >= n {
            assert(records.take(i).take(n) =~= records.take(n));
            lemma_replayed_prefix(records.take(i), path, n);
        }
    }
}

/// One record further in a log.
proof fn lemma_one_further(records: Seq<ReplayedRecord>, n: int)
    requires
        0 <= n < records.len(),
    ensures
        records.take(n + 1).drop_last() == records.take(n),
        records.take(n + 1).last() == records[n],
        records.skip(n).len() == records.len() - n,
        records.skip(n)[0] == records[n],
        records.skip(n).remove(0) == records.skip(n + 1),
{
    assert(records.take(n + 1).drop_last() =~= records.take(n));
    assert(records.skip(n).remove(0) =~= records.skip(n + 1));
}

proof fn lemma_replayed_prefix(records: Seq<ReplayedRecord>, path: Seq<char>, n: int)
    requires
        0 <= n <= records.len(),
        replayed_log(records.take(n), path) is Err,
    ensures
        replayed_log(records, path) == replayed_log(records.take(n), path),
    decreases records.len() - n,
{
    if n < records.len() {
        assert(records.take(n + 1).drop_last() =~= records.take(n));
        lemma_replayed_prefix(records, path, n + 1);
    } else {
        assert(records.take(n) =~= records);
    }
}

/// The engine's own error for a record that cannot be replayed.
fn replay_failure(record: &str, path: &str, number: usize, error: &GroupEngineError) -> (r:
    GroupEngineError)
    ensures
        errors::is_internal_error(
            r,
            record@ + path@ + "' record "@ + text::decimal(number as nat) + ": "@
                + errors::engine_error_text(*error),
        ),
{
    let mut text = record.to_owned();
    text.append(path);
    text.append("' record ");
    text.append(decimal_text(number as u128).as_str());
    text.append(": ");
    text.append(error.message().as_str());
    GroupEngineError::new(text.as_str())
}

/// Replays one record.
fn replay_record(inner: &mut InMemoryGroupEngine, record: ReplayedRecord) -> (r: Result<
    (),
    GroupEngineError,
>)
    requires
        old(inner).wf(),
        is_answered(record),
        old(inner)@.has_room(record_weight(record)),
    ensures
        final(inner).wf(),
        match replayed_record(old(inner)@, record) {
            Ok(after) => r is Ok && final(inner)@ == after,
            Err(refusal) => r is Err && errors::engine_error_text(r->Err_0) == refusal_text(
                refusal,
            ),
        },
{
    proof {
        reveal(replayed_record);
        reveal(is_answered);
        reveal(record_weight);
    }
    match record {
        ReplayedRecord::Command { command, answers } => {
            let nowhere = ShardPlacement {
                core_id: CoreId(0),
                shard_id: ShardId(0),
                raft_group_id: RaftGroupId(0),
            };
            match inner.apply_group_write(&command, answers, nowhere) {
                Ok(_) => Ok(()),
                Err(error) => Err(error),
            }
        },
        ReplayedRecord::Snapshot { group_commit_index, restored, stream_append_counts } =>
            inner.install_snapshot_parts(group_commit_index, &restored, &stream_append_counts),
    }
}

/// Whether the counters have room for the writes of a record.
fn has_room_for_record(inner: &InMemoryGroupEngine, record: &ReplayedRecord) -> (r: bool)
    requires
        inner.wf(),
    ensures
        r == inner@.has_room(record_weight(*record)),
{
    proof {
        reveal(record_weight);
    }
    match record {
        ReplayedRecord::Command { answers, .. } => inner.has_room_for_all(answers),
        ReplayedRecord::Snapshot { .. } => true,
    }
}

/// Replays a log from its beginning; nothing comes of a log that asks for more writes
/// than can be counted.
pub fn try_replay_group_log(log_path: &str, records: Vec<ReplayedRecord>) -> (r: Option<
    Result<InMemoryGroupEngine, GroupEngineError>,
>)
    requires
        forall|i: int| 0 <= i < records@.len() ==> is_answered(#[trigger] records@[i]),
    ensures
        r is Some <==> log_has_room(records@, log_path@),
        r matches Some(result) ==> is_replayed(result, records@, log_path@),
{
    let ghost all = records@;
    let count: usize = records.len();
    let mut rest = records;
    let mut inner = InMemoryGroupEngine::new();
    let mut index: usize = 0;
    assert(all.take(0) =~= Seq::empty());
    while rest.len() > 0
        invariant
            inner.wf(),
            index + rest@.len() == all.len(),
            rest@ == all.skip(index as int),
            all == records@,
            all.len() == count,
            forall|i: int| 0 <= i < all.len() ==> is_answered(#[trigger] all[i]),
            forall|i: int| 0 <= i < index ==> #[trigger] finds_room(all, log_path@, i),
            replayed_log(all.take(index as int), log_path@) == Ok::<EngineState, Seq<char>>(
                inner@,
            ),
        decreases rest@.len(),
    {
        proof {
            lemma_one_further(all, index as int);
            lemma_finds_room(all, log_path@, index as int, inner@);
        }
        let record = rest.remove(0);
        if !has_room_for_record(&inner, &record) {
            return None;
        }
        let words = match &record {
            ReplayedRecord::Command { .. } => "replay WAL command '",
            ReplayedRecord::Snapshot { .. } => "replay WAL snapshot '",
        };
        index = index + 1;
        if let Err(error) = replay_record(&mut inner, record) {
            proof {
                lemma_replayed_prefix(all, log_path@, index as int);
                lemma_failed_log_has_room(all, log_path@, index as int);
            }
            return Some(Err(replay_failure(words, log_path, index, &error)));
        }
    }
    assert(all.take(index as int) =~= all);
    Some(Ok(inner))
}

/// Whether a result is that of a log that was replayed from its beginning.
pub open spec fn is_replayed(
    result: Result<InMemoryGroupEngine, GroupEngineError>,
    records: Seq<ReplayedRecord>,
    path: Seq<char>,
) -> bool {
    match replayed_log(records, path) {
        Ok(after) => result is Ok && result->Ok_0.wf() && result->Ok_0@ == after,
        Err(words) => result is Err && errors::is_internal_error(result->Err_0, words),
    }
}

/// Replays a log from its beginning.
pub fn replay_group_log(log_path: &str, records: Vec<ReplayedRecord>) -> (r: Result<
    InMemoryGroupEngine,
    GroupEngineError,
>)
    requires
        forall|i: int| 0 <= i < records@.len() ==> is_answered(#[trigger] records@[i]),
        log_has_room(records@, log_path@),
    ensures
        is_replayed(r, records@, log_path@),
{
    match try_replay_group_log(log_path, records) {
        Some(result) => result,
        None => {
            assert(false);
            Err(GroupEngineError::new(""))
        },
    }
}

} // verus!
