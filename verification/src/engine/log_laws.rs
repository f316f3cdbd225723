//! What a log gives back of the writes that went through it.

use vstd::prelude::*;
use crate::command::GroupWriteCommand;
use crate::engine::access;
use crate::engine::access::AccessAnswer;
use crate::engine::batch;
use crate::engine::in_memory;
use crate::engine::laws;
use crate::engine::state;
use crate::engine::state::{EngineState, MachineAnswer, WriteOutcome};
use crate::engine::wal;
use crate::engine::wal::ReplayedRecord;
use crate::ids::{ShardPlacement, StreamName};
use crate::stream::{StreamCommand, StreamResponse};

verus! {

/// A stream layer: the streams after a command, and the answer to it.
pub type StreamLayer<S> = spec_fn(S, StreamCommand) -> (S, MachineAnswer);

/// A group: its streams, and the state of its engine.
pub struct Group<S> {
    pub streams: S,
    pub state: EngineState,
}

/// A group over which nothing was written yet.
pub open spec fn new_group<S>(streams: S) -> Group<S> {
    Group { streams, state: EngineState { commit_index: 0, counts: Map::empty() } }
}

/// What comes of a command, with the answer that it gets.
pub open spec fn outcome_of<S>(
    layer: StreamLayer<S>,
    group: Group<S>,
    command: StreamCommand,
    placement: ShardPlacement,
) -> WriteOutcome {
    state::applied(group.state, command, layer(group.streams, command).1, placement).1
}

/// A group after a command that went through the log: one that is refused leaves it
/// as it was.
pub open spec fn after_write<S>(
    layer: StreamLayer<S>,
    group: Group<S>,
    command: StreamCommand,
    placement: ShardPlacement,
) -> Group<S> {
    let (streams, answer) = layer(group.streams, command);
    let (state, outcome) = state::applied(group.state, command, answer, placement);
    if outcome is Refused {
        group
    } else {
        Group { streams, state }
    }
}

/// A group after several commands.
pub open spec fn after_writes<S>(
    layer: StreamLayer<S>,
    start: Group<S>,
    commands: Seq<StreamCommand>,
    placement: ShardPlacement,
) -> Group<S>
    decreases commands.len(),
{
    if commands.len() == 0 {
        start
    } else {
        after_write(
            layer,
            after_writes(layer, start, commands.drop_last(), placement),
            commands.last(),
            placement,
        )
    }
}

/// Those of the commands that have gone into the log.
pub open spec fn logged<S>(
    layer: StreamLayer<S>,
    start: Group<S>,
    commands: Seq<StreamCommand>,
    placement: ShardPlacement,
    bounded: bool,
) -> Seq<StreamCommand>
    decreases commands.len(),
{
    if commands.len() == 0 {
        Seq::empty()
    } else {
        let before = logged(layer, start, commands.drop_last(), placement, bounded);
        let group = after_writes(layer, start, commands.drop_last(), placement);
        if laws::is_logged(outcome_of(layer, group, commands.last(), placement), bounded) {
            before.push(commands.last())
        } else {
            before
        }
    }
}

/// The streams after the commands of a log.
pub open spec fn replayed_streams<S>(
    layer: StreamLayer<S>,
    start: S,
    commands: Seq<StreamCommand>,
) -> S
    decreases commands.len(),
{
    if commands.len() == 0 {
        start
    } else {
        layer(replayed_streams(layer, start, commands.drop_last()), commands.last()).0
    }
}

/// Whether records are those of the commands of a log, with the answers that the
/// stream layer gives when they are replayed.
pub open spec fn are_records<S>(
    records: Seq<ReplayedRecord>,
    layer: StreamLayer<S>,
    start: S,
    commands: Seq<StreamCommand>,
) -> bool {
    &&& records.len() == commands.len()
    &&& forall|i: int|
        0 <= i < records.len() ==> is_record(
            #[trigger] records[i],
            commands[i],
            layer(replayed_streams(layer, start, commands.take(i)), commands[i]).1,
        )
}

/// Whether a record is that of a command, with this answer.
pub open spec fn is_record(
    record: ReplayedRecord,
    command: StreamCommand,
    answer: MachineAnswer,
) -> bool {
    record matches ReplayedRecord::Command { command: GroupWriteCommand::Stream(found), answers }
        && found == command && answers@ == seq![answer]
}

/// Whether a stream layer answers what it is asked, and changes nothing where its
/// answer is neither a refusal nor goes into the log.
pub open spec fn is_sound<S>(layer: StreamLayer<S>, bounded: bool) -> bool {
    forall|streams: S, command: StreamCommand|
        #![trigger layer(streams, command)]
        state::is_group_write(command) ==> {
            let (after, answer) = layer(streams, command);
            &&& state::answers(command, answer)
            &&& laws::is_coherent(answer)
            &&& is_unlogged(command, answer, bounded) ==> after == streams
        }
}

/// Whether an answer is neither a refusal nor goes into the log.
pub open spec fn is_unlogged(command: StreamCommand, answer: MachineAnswer, bounded: bool) -> bool {
    let start = EngineState { commit_index: 0, counts: Map::empty() };
    let outcome = state::applied(start, command, answer, wal::nowhere()).1;
    !(outcome is Refused) && !laws::is_logged(outcome, bounded)
}

/// Whether there was room for each write when its turn came.
pub open spec fn writes_have_room<S>(
    layer: StreamLayer<S>,
    start: Group<S>,
    commands: Seq<StreamCommand>,
    placement: ShardPlacement,
) -> bool {
    forall|i: int|
        #![trigger commands[i]]
        0 <= i < commands.len() ==> {
            let group = after_writes(layer, start, commands.take(i), placement);
            group.state.has_room(state::weight(layer(group.streams, commands[i]).1))
        }
}

/// Whether a write is refused, and whether it goes into the log, depends on the
/// answer alone.
proof fn lemma_logging_is_passive(
    here: EngineState,
    there: EngineState,
    command: StreamCommand,
    answer: MachineAnswer,
    near: ShardPlacement,
    far: ShardPlacement,
    bounded: bool,
)
    requires
        state::answers(command, answer),
    ensures
        ({
            let one = state::applied(here, command, answer, near).1;
            let other = state::applied(there, command, answer, far).1;
            &&& one is Refused <==> other is Refused
            &&& laws::is_logged(one, bounded) == laws::is_logged(other, bounded)
        }),
{
    let one = state::applied(here, command, answer, near).1;
    let other = state::applied(there, command, answer, far).1;
    if one is Items {
        let stream = state::stream_of(command);
        if let MachineAnswer::Each(answers) = answer {
            laws::lemma_each(here, stream, answers@, near);
            laws::lemma_each(there, stream, answers@, far);
        }
        assert(one->items.len() == other->items.len());
        assert forall|i: int| 0 <= i < one->items.len() implies laws::is_new_item(
            #[trigger] one->items[i],
        ) == laws::is_new_item(other->items[i]) by {
            if let MachineAnswer::Each(answers) = answer {
                assert(laws::is_new_item(one->items[i]) == (answers@[i] matches Some(response)
                    && laws::is_new_append(response)));
                assert(laws::is_new_item(other->items[i]) == (answers@[i] matches Some(response)
                    && laws::is_new_append(response)));
            }
        }
        if laws::is_logged(one, bounded) {
            let i = choose|i: int|
                0 <= i < one->items.len() && laws::is_new_item(#[trigger] one->items[i]);
            assert(laws::is_new_item(other->items[i]));
        }
        if laws::is_logged(other, bounded) {
            let i = choose|i: int|
                0 <= i < other->items.len() && laws::is_new_item(#[trigger] other->items[i]);
            assert(laws::is_new_item(one->items[i]));
        }
    }
}

proof fn lemma_same_room(one: EngineState, other: EngineState, by: int)
    requires
        one.same_counts(other),
        other.has_room(by),
    ensures
        one.has_room(by),
{
    assert forall|stream: StreamName| one.counts.contains_key(stream) implies #[trigger]
        one.counts[stream] + by <= u64::MAX by {
        assert(one.count_of(stream) == other.count_of(stream));
    }
}

proof fn lemma_records_prefix<S>(
    records: Seq<ReplayedRecord>,
    layer: StreamLayer<S>,
    start: S,
    commands: Seq<StreamCommand>,
)
    requires
        are_records(records, layer, start, commands),
        commands.len() > 0,
    ensures
        are_records(records.drop_last(), layer, start, commands.drop_last()),
        is_record(
            records.last(),
            commands.last(),
            layer(replayed_streams(layer, start, commands.drop_last()), commands.last()).1,
        ),
{
    let fewer = commands.drop_last();
    assert forall|i: int| 0 <= i < fewer.len() implies is_record(
        #[trigger] records.drop_last()[i],
        fewer[i],
        layer(replayed_streams(layer, start, fewer.take(i)), fewer[i]).1,
    ) by {
        assert(records.drop_last()[i] == records[i]);
        assert(fewer.take(i) =~= commands.take(i));
    }
    assert(commands.take(commands.len() - 1) =~= fewer);
    assert(records.last() == records[records.len() - 1]);
}

/// The log gives the group back. Whatever was written to a new group, and whatever
/// came of it: replaying the records of what went into the log succeeds, and leaves
/// the streams as they are, the same commit index and the same counts. So every write
/// that was acknowledged and changed something is there, and none that was refused.
pub proof fn law_log_restores_the_group<S>(
    layer: StreamLayer<S>,
    start: S,
    commands: Seq<StreamCommand>,
    placement: ShardPlacement,
    bounded: bool,
    records: Seq<ReplayedRecord>,
    path: Seq<char>,
)
    requires
        is_sound(layer, bounded),
        forall|i: int|
            0 <= i < commands.len() ==> state::is_group_write(#[trigger] commands[i]),
        are_records(
            records,
            layer,
            start,
            logged(layer, new_group(start), commands, placement, bounded),
        ),
    ensures
        forall|i: int| 0 <= i < records.len() ==> wal::is_answered(#[trigger] records[i]),
        writes_have_room(layer, new_group(start), commands, placement) ==> wal::log_has_room(
            records,
            path,
        ),
        replayed_streams(
            layer,
            start,
            logged(layer, new_group(start), commands, placement, bounded),
        ) == after_writes(layer, new_group(start), commands, placement).streams,
        wal::replayed_log(records, path) matches Ok(state) && state.same_counts(
            after_writes(layer, new_group(start), commands, placement).state,
        ),
    decreases commands.len(),
{
    if commands.len() > 0 {
        let prefix = commands.drop_last();
        let command = commands.last();
        assert(command == commands[commands.len() - 1]);
        assert forall|i: int| 0 <= i < prefix.len() implies state::is_group_write(
            #[trigger] prefix[i],
        ) by {
            assert(prefix[i] == commands[i]);
        }
        let group = after_writes(layer, new_group(start), prefix, placement);
        let answer = layer(group.streams, command).1;
        let log = logged(layer, new_group(start), commands, placement, bounded);
        let before = logged(layer, new_group(start), prefix, placement, bounded);
        let none = EngineState { commit_index: 0, counts: Map::empty() };
        lemma_logging_is_passive(
            group.state,
            none,
            command,
            answer,
            placement,
            wal::nowhere(),
            bounded,
        );
        if writes_have_room(layer, new_group(start), commands, placement) {
            lemma_prefix_has_room(layer, new_group(start), commands, placement);
        }
        if laws::is_logged(outcome_of(layer, group, command, placement), bounded) {
            assert(log.drop_last() =~= before);
            lemma_records_prefix(records, layer, start, log);
            law_log_restores_the_group(
                layer,
                start,
                prefix,
                placement,
                bounded,
                records.drop_last(),
                path,
            );
            let found = wal::replayed_log(records.drop_last(), path)->Ok_0;
            lemma_logged_record(found, group.state, records.last(), command, answer, placement);
            assert forall|i: int| 0 <= i < records.len() implies wal::is_answered(
                #[trigger] records[i],
            ) by {
                if i < records.len() - 1 {
                    assert(records.drop_last()[i] == records[i]);
                }
            }
            if writes_have_room(layer, new_group(start), commands, placement) {
                lemma_log_has_room(records, path, group.state, state::weight(answer));
            }
        } else {
            law_log_restores_the_group(layer, start, prefix, placement, bounded, records, path);
            let found = wal::replayed_log(records, path)->Ok_0;
            laws::law_unlogged_write_changes_no_count(
                group.state,
                command,
                answer,
                placement,
                bounded,
            );
            let after = after_writes(layer, new_group(start), commands, placement);
            assert forall|stream: StreamName| #[trigger]
                found.count_of(stream) == after.state.count_of(stream) by {
                assert(found.count_of(stream) == group.state.count_of(stream));
                assert(state::applied(group.state, command, answer, placement).0.count_of(stream)
                    == group.state.count_of(stream));
            }
        }
    }
}

proof fn lemma_prefix_has_room<S>(
    layer: StreamLayer<S>,
    start: Group<S>,
    commands: Seq<StreamCommand>,
    placement: ShardPlacement,
)
    requires
        commands.len() > 0,
        writes_have_room(layer, start, commands, placement),
    ensures
        writes_have_room(layer, start, commands.drop_last(), placement),
        ({
            let group = after_writes(layer, start, commands.drop_last(), placement);
            group.state.has_room(state::weight(layer(group.streams, commands.last()).1))
        }),
{
    let prefix = commands.drop_last();
    assert forall|i: int|
        #![trigger prefix[i]]
        0 <= i < prefix.len() implies {
        let group = after_writes(layer, start, prefix.take(i), placement);
        group.state.has_room(state::weight(layer(group.streams, prefix[i]).1))
    } by {
        assert(prefix[i] == commands[i]);
        assert(prefix.take(i) =~= commands.take(i));
    }
    assert(commands.take(commands.len() - 1) =~= prefix);
    assert(commands.last() == commands[commands.len() - 1]);
}

proof fn lemma_logged_record(
    found: EngineState,
    live: EngineState,
    record: ReplayedRecord,
    command: StreamCommand,
    answer: MachineAnswer,
    placement: ShardPlacement,
)
    requires
        state::answers(command, answer),
        is_record(record, command, answer),
        found.same_counts(live),
        !(state::applied(live, command, answer, placement).1 is Refused),
    ensures
        wal::is_answered(record),
        wal::record_weight(record) == state::weight(answer),
        wal::replayed_record(found, record) matches Ok(after) && after.same_counts(
            state::applied(live, command, answer, placement).0,
        ),
{
    reveal(wal::is_answered);
    reveal(wal::record_weight);
    reveal(wal::replayed_record);
    lemma_logging_is_passive(found, live, command, answer, wal::nowhere(), placement, false);
    in_memory::lemma_placement_is_passive(live, command, answer, placement, wal::nowhere());
    laws::law_writes_do_not_tell_zero_counts_apart(found, live, command, answer, wal::nowhere());
    let answers = record->answers@;
    assert(answers[0] == answer);
    assert(batch::total_weight(answers.drop_first()) == 0);
    assert(batch::total_weight(answers) == state::weight(answer));
    assert(seq![command][0] == command);
}

proof fn lemma_log_has_room(
    records: Seq<ReplayedRecord>,
    path: Seq<char>,
    live: EngineState,
    weight: int,
)
    requires
        records.len() > 0,
        wal::log_has_room(records.drop_last(), path),
        wal::replayed_log(records.drop_last(), path) matches Ok(state) && state.same_counts(live),
        wal::record_weight(records.last()) == weight,
        live.has_room(weight),
    ensures
        wal::log_has_room(records, path),
{
    reveal(wal::finds_room);
    let fewer = records.drop_last();
    assert forall|i: int| 0 <= i < records.len() implies #[trigger] wal::finds_room(
        records,
        path,
        i,
    ) by {
        if i < fewer.len() {
            assert(wal::finds_room(fewer, path, i));
            assert(fewer[i] == records[i]);
            assert(fewer.take(i) =~= records.take(i));
        } else {
            assert(records.take(i) =~= fewer);
            lemma_same_room(wal::replayed_log(fewer, path)->Ok_0, live, weight);
        }
    }
}

/// A group after a command that the group has agreed on, and whether it succeeded.
pub open spec fn after_commit<S>(
    layer: StreamLayer<S>,
    group: Group<S>,
    command: StreamCommand,
    placement: ShardPlacement,
) -> (Group<S>, bool) {
    let (streams, answer) = layer(group.streams, command);
    let (state, outcome) = state::applied(group.state, command, answer, placement);
    (Group { streams, state }, !(outcome is Refused))
}

/// A group after a command that is replayed, and whether it succeeded.
pub open spec fn after_replay<S>(
    layer: StreamLayer<S>,
    group: Group<S>,
    command: StreamCommand,
) -> (Group<S>, bool) {
    let (streams, answer) = layer(group.streams, command);
    let (state, result) = state::replayed(group.state, command, answer);
    (Group { streams, state }, result is Ok)
}

/// Over any stream layer, replaying a creation, a snapshot, an access, a flush, a
/// closing or the end of garbage succeeds where applying it succeeds, and leaves the
/// same group.
pub proof fn law_replayed_command_leaves_the_same_group<S>(
    layer: StreamLayer<S>,
    group: Group<S>,
    command: StreamCommand,
    placement: ShardPlacement,
)
    requires
        command is CreateStream || command is CreateExternal || command is PublishSnapshot
            || command is TouchStreamAccess || command is FlushCold || command is Close
            || command is AckColdGc,
        state::answers(command, layer(group.streams, command).1),
    ensures
        after_replay(layer, group, command) == after_commit(layer, group, command, placement),
{
    let answer = layer(group.streams, command).1;
    laws::law_replay_is_apply(group.state, command, answer, placement);
}

/// An access that is written down counts as the command that stands for it in the log,
/// and goes into the log where that command would.
pub proof fn law_access_counts_as_its_command(
    state: EngineState,
    command: StreamCommand,
    response: StreamResponse,
    placement: ShardPlacement,
    bounded: bool,
)
    requires
        command is TouchStreamAccess,
    ensures
        ({
            let answer = MachineAnswer::One(response);
            let access = AccessAnswer::Touched(response);
            let applied = state::applied(state, command, answer, placement);
            &&& access::accessed(state, state::stream_of(command), access, placement).0
                == applied.0
            &&& wal::access_is_logged(access) == laws::is_logged(applied.1, bounded)
        }),
{
}

} // verus!
