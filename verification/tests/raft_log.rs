//! The replicated log that is kept in memory.

use ursula_runtime::io_error::IoErrorKind;
use ursula_runtime::command::GroupWriteCommand;
use ursula_runtime::engine::errors::{GroupEngineError, GroupInfraError};
use ursula_runtime::ids::BucketStreamId;
use ursula_runtime::raft::log_store::{LogHole, RaftEntry, RaftEntryPayload, RaftLogId, RaftVote};
use ursula_runtime::raft::{required, ControlCommand};
use ursula_runtime::stream::StreamCommand;
use ursula_runtime::{MetaRaftLogStore, RaftGroupLogStore};

fn log_id(index: u64) -> RaftLogId {
    RaftLogId {
        term: 1,
        leader_id: 1,
        index,
    }
}

fn meta_log_id(index: u64) -> RaftLogId {
    log_id(index)
}

fn create_stream_command(name: &str) -> GroupWriteCommand {
    GroupWriteCommand::Stream(StreamCommand::CreateStream {
        stream_id: BucketStreamId::new("benchcmp", name),
        content_type: "application/octet-stream".to_owned(),
        initial_payload: Vec::new(),
        close_after: false,
        stream_seq: None,
        producer: None,
        stream_ttl_seconds: None,
        stream_expires_at_ms: None,
        attrs: None,
        now_ms: 0,
    })
}

fn register_node_command(node_id: u64) -> ControlCommand {
    ControlCommand::RegisterNode {
        node_id,
        client_url: format!("http://client-{node_id}"),
        cluster_url: format!("http://cluster-{node_id}"),
        labels: Vec::new(),
        now_ms: node_id,
    }
}

fn normal_entry(index: u64, command: GroupWriteCommand) -> RaftEntry<GroupWriteCommand> {
    RaftEntry::new(log_id(index), RaftEntryPayload::Normal(command))
}

fn meta_entry(index: u64, command: ControlCommand) -> RaftEntry<ControlCommand> {
    RaftEntry::new(meta_log_id(index), RaftEntryPayload::Normal(command))
}

#[test]
fn raft_log_store_appends_reads_truncates_and_purges() {
    let mut store = RaftGroupLogStore::shared();
    store
        .append(vec![
            normal_entry(1, create_stream_command("log-1")),
            normal_entry(2, create_stream_command("log-2")),
            normal_entry(3, create_stream_command("log-3")),
        ])
        .expect("append raft log entries");

    let state = store.get_log_state();
    assert_eq!(state.last_purged_log_id, None);
    assert_eq!(state.last_log_id, Some(log_id(3)));

    let entries = store.try_get_log_entries(1, 4);
    assert_eq!(entries.len(), 3);
    assert_eq!(entries[0].log_id, log_id(1));
    assert_eq!(entries[2].log_id, log_id(3));

    store.truncate_after(Some(log_id(1)));
    assert_eq!(store.get_log_state().last_log_id, Some(log_id(1)));

    store
        .append(vec![
            normal_entry(2, create_stream_command("log-2b")),
            normal_entry(3, create_stream_command("log-3b")),
        ])
        .expect("append after truncate");
    store.purge(log_id(2));

    let state = store.get_log_state();
    assert_eq!(state.last_purged_log_id, Some(log_id(2)));
    assert_eq!(state.last_log_id, Some(log_id(3)));

    let entries = store.try_get_log_entries(1, 4);
    assert_eq!(entries.len(), 1);
    assert_eq!(entries[0].log_id, log_id(3));
}

#[test]
fn raft_log_store_persists_vote_and_committed_pointer() {
    let mut store = RaftGroupLogStore::shared();
    let vote = RaftVote::new_committed(7, 1);

    store.save_vote(&vote);
    assert_eq!(store.read_vote(), Some(vote));

    store.save_committed(Some(log_id(9)));
    assert_eq!(store.read_committed(), Some(log_id(9)));
}

#[test]
fn raft_log_store_rejects_holes() {
    let mut store = RaftGroupLogStore::shared();
    let err = store
        .append(vec![
            normal_entry(1, create_stream_command("hole-1")),
            normal_entry(3, create_stream_command("hole-3")),
        ])
        .expect_err("hole should be rejected");

    assert_eq!(err.kind(), IoErrorKind::InvalidData);

    store
        .append(vec![normal_entry(1, create_stream_command("hole-boundary-1"))])
        .expect("append first entry");
    let err = store
        .append(vec![normal_entry(3, create_stream_command("hole-boundary-3"))])
        .expect_err("cross-append hole should be rejected");

    assert_eq!(err.kind(), IoErrorKind::InvalidData);
    assert_eq!(
        err,
        LogHole {
            expected: Some(2),
            found: 3
        }
    );
}

#[test]
fn meta_raft_log_store_appends_reads_truncates_and_purges() {
    let mut store = MetaRaftLogStore::shared();
    store
        .append(vec![
            meta_entry(1, register_node_command(1)),
            meta_entry(2, register_node_command(2)),
            meta_entry(3, register_node_command(3)),
        ])
        .expect("append meta log entries");

    let state = store.get_log_state();
    assert_eq!(state.last_purged_log_id, None);
    assert_eq!(state.last_log_id, Some(meta_log_id(3)));

    let entries = store.try_get_log_entries(1, 4);
    assert_eq!(entries.len(), 3);
    assert_eq!(entries[0].log_id, meta_log_id(1));
    assert_eq!(entries[2].log_id, meta_log_id(3));

    store.truncate_after(Some(meta_log_id(1)));
    assert_eq!(store.get_log_state().last_log_id, Some(meta_log_id(1)));

    store
        .append(vec![
            meta_entry(2, register_node_command(4)),
            meta_entry(3, register_node_command(5)),
        ])
        .expect("append after truncate");
    store.purge(meta_log_id(2));

    let state = store.get_log_state();
    assert_eq!(state.last_purged_log_id, Some(meta_log_id(2)));
    assert_eq!(state.last_log_id, Some(meta_log_id(3)));

    let entries = store.try_get_log_entries(1, 4);
    assert_eq!(entries.len(), 1);
    assert_eq!(entries[0].log_id, meta_log_id(3));
    assert_eq!(
        entries[0].payload,
        RaftEntryPayload::Normal(register_node_command(5))
    );
}

#[test]
fn meta_raft_log_store_persists_vote_and_committed_pointer() {
    let mut store = MetaRaftLogStore::shared();
    let vote = RaftVote::new_committed(7, 1);

    store.save_vote(&vote);
    assert_eq!(store.read_vote(), Some(vote));

    store.save_committed(Some(meta_log_id(9)));
    assert_eq!(store.read_committed(), Some(meta_log_id(9)));
}

#[test]
fn meta_raft_log_store_rejects_holes() {
    let mut store = MetaRaftLogStore::shared();
    let err = store
        .append(vec![
            meta_entry(1, register_node_command(1)),
            meta_entry(3, register_node_command(3)),
        ])
        .expect_err("hole should be rejected");

    assert_eq!(err.kind(), IoErrorKind::InvalidData);

    store
        .append(vec![meta_entry(1, register_node_command(1))])
        .expect("append first entry");
    let err = store
        .append(vec![meta_entry(3, register_node_command(3))])
        .expect_err("cross-append hole should be rejected");

    assert_eq!(err.kind(), IoErrorKind::InvalidData);
}

#[test]
fn public_meta_log_store_type_is_exported_from_crate_root() {
    let _store = ursula_runtime::MetaRaftLogStore::shared();
    let _generic = ursula_runtime::MemoryRaftLogStore::<ursula_runtime::MetaRaftTypeConfig>::shared();
}

#[test]
fn required_missing_proto_field_returns_typed_proto_decode_error() {
    let err = required::<u64>(None, "group_engine_error.error")
        .expect_err("missing required field should decode to an error");

    assert!(matches!(
        err,
        GroupEngineError::Infra(GroupInfraError::ProtoDecode {
            field,
            ..
        }) if field == "group_engine_error.error"
    ));
}

#[test]
fn a_field_that_is_there_is_handed_on() {
    assert_eq!(required(Some(5_u64), "f"), Ok(5));
}

#[test]
fn a_refused_append_leaves_the_log_as_it_was() {
    let mut store = MetaRaftLogStore::shared();
    store
        .append(vec![meta_entry(4, register_node_command(1))])
        .expect("a log may start anywhere");
    store
        .append(vec![
            meta_entry(5, register_node_command(2)),
            meta_entry(7, register_node_command(3)),
        ])
        .expect_err("hole should be rejected");
    assert_eq!(store.get_log_state().last_log_id, Some(meta_log_id(4)));
    assert_eq!(store.try_get_log_entries(0, 100).len(), 1);
}

#[test]
fn truncating_undoes_an_append() {
    let mut store = MetaRaftLogStore::shared();
    store
        .append(vec![meta_entry(1, register_node_command(1))])
        .expect("append");
    let before = store.get_log_state();
    store
        .append(vec![
            meta_entry(2, register_node_command(2)),
            meta_entry(3, register_node_command(3)),
        ])
        .expect("append");
    store.truncate_after(Some(meta_log_id(1)));
    assert_eq!(store.get_log_state(), before);
    store.truncate_after(None);
    assert_eq!(store.try_get_log_entries(0, 100).len(), 0);
}
