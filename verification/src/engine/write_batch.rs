//! Several replicated writes, handed to an engine one after the other, and what they
//! give.

use vstd::prelude::*;
use crate::command::GroupWriteCommand;
use crate::engine::dispatch;
use crate::engine::dispatch::{engine_requests, EngineRequest};
use crate::engine::errors::GroupEngineError;
use crate::engine::responses::{GroupAppendBatchResponse, GroupWriteResponse};
use crate::request::{
    AckColdGcResponse, AppendResponse, CloseStreamResponse, CreateStreamResponse,
    DeleteStreamResponse, FlushColdResponse, ForkRefResponse, PublishSnapshotResponse,
    TouchStreamAccessResponse, UpdateStreamAttrsResponse,
};
use crate::stream::StreamCommand;

verus! {

/// What an engine answers to what it is asked.
#[derive(Debug, PartialEq, Eq)]
pub enum EngineReply {
    CreateStream(CreateStreamResponse),
    CreateStreamExternal(CreateStreamResponse),
    Append(AppendResponse),
    AppendExternal(AppendResponse),
    AppendBatch(GroupAppendBatchResponse),
    PublishSnapshot(PublishSnapshotResponse),
    TouchStreamAccess(TouchStreamAccessResponse),
    UpdateStreamAttrs(UpdateStreamAttrsResponse),
    AddForkRef(ForkRefResponse),
    ReleaseForkRef(ForkRefResponse),
    FlushCold(FlushColdResponse),
    CloseStream(CloseStreamResponse),
    DeleteStream(DeleteStreamResponse),
    AckColdGc(AckColdGcResponse),
}

/// The response to a write that an engine's answer is.
pub open spec fn response_of(reply: EngineReply) -> GroupWriteResponse {
    match reply {
        EngineReply::CreateStream(response) => GroupWriteResponse::CreateStream(response),
        EngineReply::CreateStreamExternal(response) => GroupWriteResponse::CreateStream(response),
        EngineReply::Append(response) => GroupWriteResponse::Append(response),
        EngineReply::AppendExternal(response) => GroupWriteResponse::Append(response),
        EngineReply::AppendBatch(response) => GroupWriteResponse::AppendBatch(response),
        EngineReply::PublishSnapshot(response) => GroupWriteResponse::PublishSnapshot(response),
        EngineReply::TouchStreamAccess(response) => GroupWriteResponse::TouchStreamAccess(response),
        EngineReply::UpdateStreamAttrs(response) => GroupWriteResponse::UpdateStreamAttrs(response),
        EngineReply::AddForkRef(response) => GroupWriteResponse::AddForkRef(response),
        EngineReply::ReleaseForkRef(response) => GroupWriteResponse::ReleaseForkRef(response),
        EngineReply::FlushCold(response) => GroupWriteResponse::FlushCold(response),
        EngineReply::CloseStream(response) => GroupWriteResponse::CloseStream(response),
        EngineReply::DeleteStream(response) => GroupWriteResponse::DeleteStream(response),
        EngineReply::AckColdGc(response) => GroupWriteResponse::AckColdGc(response),
    }
}

impl EngineReply {
    /// The response to a write that the answer is.
    pub fn into_response(self) -> (r: GroupWriteResponse)
        ensures
            r == response_of(self),
    {
        match self {
            EngineReply::CreateStream(response) => GroupWriteResponse::CreateStream(response),
            EngineReply::CreateStreamExternal(response) => GroupWriteResponse::CreateStream(
                response,
            ),
            EngineReply::Append(response) => GroupWriteResponse::Append(response),
            EngineReply::AppendExternal(response) => GroupWriteResponse::Append(response),
            EngineReply::AppendBatch(response) => GroupWriteResponse::AppendBatch(response),
            EngineReply::PublishSnapshot(response) => GroupWriteResponse::PublishSnapshot(response),
            EngineReply::TouchStreamAccess(response) => GroupWriteResponse::TouchStreamAccess(
                response,
            ),
            EngineReply::UpdateStreamAttrs(response) => GroupWriteResponse::UpdateStreamAttrs(
                response,
            ),
            EngineReply::AddForkRef(response) => GroupWriteResponse::AddForkRef(response),
            EngineReply::ReleaseForkRef(response) => GroupWriteResponse::ReleaseForkRef(response),
            EngineReply::FlushCold(response) => GroupWriteResponse::FlushCold(response),
            EngineReply::CloseStream(response) => GroupWriteResponse::CloseStream(response),
            EngineReply::DeleteStream(response) => GroupWriteResponse::DeleteStream(response),
            EngineReply::AckColdGc(response) => GroupWriteResponse::AckColdGc(response),
        }
    }
}

/// How many commands a replicated write holds: one by itself, or several together.
#[derive(Debug, Clone, Copy, PartialEq, Eq, Structural)]
pub enum WriteShape {
    Single,
    Several { count: usize },
}

/// How many commands a replicated write holds.
pub open spec fn shape_of(command: GroupWriteCommand) -> WriteShape {
    match command {
        GroupWriteCommand::Stream(_) => WriteShape::Single,
        GroupWriteCommand::Batch { commands } => WriteShape::Several {
            count: commands@.len() as usize,
        },
    }
}

/// The commands of a replicated write.
pub open spec fn commands_of(command: GroupWriteCommand) -> Seq<StreamCommand> {
    match command {
        GroupWriteCommand::Stream(command) => seq![command],
        GroupWriteCommand::Batch { commands } => commands@,
    }
}

/// The commands of several replicated writes, in order.
pub open spec fn all_commands(commands: Seq<GroupWriteCommand>) -> Seq<StreamCommand>
    decreases commands.len(),
{
    if commands.len() == 0 {
        Seq::empty()
    } else {
        all_commands(commands.drop_last()) + commands_of(commands.last())
    }
}

/// The number of commands that a shape stands for.
pub open spec fn size_of(shape: WriteShape) -> int {
    match shape {
        WriteShape::Single => 1,
        WriteShape::Several { count } => count as int,
    }
}

/// Where the commands of the write with number `n` begin.
pub open spec fn start_of(shapes: Seq<WriteShape>, n: int) -> int
    decreases n,
{
    if n <= 0 {
        0
    } else {
        start_of(shapes, n - 1) + size_of(shapes[n - 1])
    }
}

/// What a batch of replicated writes asks of an engine.
#[derive(Debug)]
pub struct WriteBatch {
    pub shapes: Vec<WriteShape>,
    pub requests: Vec<Result<EngineRequest, StreamCommand>>,
}

/// Whether requests are those of the commands. A command that stands for no request is
/// handed back as it is.
pub open spec fn are_requests(
    requests: Seq<Result<EngineRequest, StreamCommand>>,
    commands: Seq<StreamCommand>,
) -> bool {
    &&& requests.len() == commands.len()
    &&& forall|i: int|
        0 <= i < requests.len() ==> #[trigger] requests[i] == match dispatch::request_of(
            commands[i],
        ) {
            Some(request) => Ok::<EngineRequest, StreamCommand>(request),
            None => Err::<EngineRequest, StreamCommand>(commands[i]),
        }
}

proof fn lemma_starts(commands: Seq<GroupWriteCommand>, shapes: Seq<WriteShape>)
    requires
        shapes.len() == commands.len(),
        forall|i: int| 0 <= i < shapes.len() ==> #[trigger] shapes[i] == shape_of(commands[i]),
    ensures
        start_of(shapes, shapes.len() as int) == all_commands(commands).len(),
    decreases commands.len(),
{
    if commands.len() > 0 {
        let fewer = shapes.drop_last();
        lemma_starts(commands.drop_last(), fewer);
        lemma_same_start(fewer, shapes, fewer.len() as int);
        assert(shapes[shapes.len() - 1] == shape_of(commands.last()));
        if let GroupWriteCommand::Batch { commands } = commands.last() {
            assert(commands.len() == commands@.len());
        }
    }
}

proof fn lemma_same_start(some: Seq<WriteShape>, more: Seq<WriteShape>, n: int)
    requires
        n <= some.len() <= more.len(),
        forall|i: int| 0 <= i < some.len() ==> #[trigger] some[i] == more[i],
    ensures
        start_of(some, n) == start_of(more, n),
    decreases n,
{
    if n > 0 {
        lemma_same_start(some, more, n - 1);
        assert(some[n - 1] == more[n - 1]);
    }
}

proof fn lemma_start_grows(shapes: Seq<WriteShape>, n: int, m: int)
    requires
        0 <= n <= m <= shapes.len(),
    ensures
        0 <= start_of(shapes, n) <= start_of(shapes, m),
    decreases m,
{
    if m > 0 {
        if n < m {
            lemma_start_grows(shapes, n, m - 1);
        } else {
            lemma_start_grows(shapes, n - 1, m - 1);
        }
    }
}

/// Parts a batch of replicated writes into what an engine is asked, in order.
pub fn begin_write_batch(commands: Vec<GroupWriteCommand>) -> (r: WriteBatch)
    ensures
        r.shapes@ == commands@.map_values(|command: GroupWriteCommand| shape_of(command)),
        are_requests(r.requests@, all_commands(commands@)),
        r.requests@.len() == start_of(r.shapes@, r.shapes@.len() as int),
{
    let ghost all = commands@;
    let mut rest = commands;
    let mut shapes: Vec<WriteShape> = Vec::new();
    let mut flat: Vec<StreamCommand> = Vec::new();
    assert(all.take(0) =~= Seq::empty());
    while rest.len() > 0
        invariant
            shapes@.len() + rest@.len() == all.len(),
            rest@ == all.skip(shapes@.len() as int),
            forall|i: int|
                0 <= i < shapes@.len() ==> #[trigger] shapes@[i] == shape_of(all[i]),
            flat@ == all_commands(all.take(shapes@.len() as int)),
        decreases rest@.len(),
    {
        let ghost n = shapes@.len() as int;
        let command = rest.remove(0);
        proof {
            assert(command == all[n]);
            assert(rest@ =~= all.skip(n + 1));
            assert(all.take(n + 1).drop_last() =~= all.take(n));
            assert(all.take(n + 1).last() == command);
        }
        match command {
            GroupWriteCommand::Stream(command) => {
                let ghost before = flat@;
                flat.push(command);
                assert(flat@ =~= before + seq![command]);
                shapes.push(WriteShape::Single);
            },
            GroupWriteCommand::Batch { commands } => {
                let mut commands = commands;
                shapes.push(WriteShape::Several { count: commands.len() });
                flat.append(&mut commands);
            },
        }
    }
    proof {
        assert(all.take(shapes@.len() as int) =~= all);
        assert(shapes@ =~= all.map_values(|command: GroupWriteCommand| shape_of(command)));
        lemma_starts(all, shapes@);
    }
    WriteBatch { shapes, requests: engine_requests(flat) }
}

/// What an engine's answer is, as the result of a write.
pub open spec fn result_of(
    reply: Result<EngineReply, GroupEngineError>,
) -> Result<GroupWriteResponse, GroupEngineError> {
    match reply {
        Ok(reply) => Ok(response_of(reply)),
        Err(error) => Err(error),
    }
}

/// Whether a result is that of a replicated write whose commands were answered so: the
/// answer itself, or where there were several, all of the answers, errors among them.
pub open spec fn is_result(
    result: Result<GroupWriteResponse, GroupEngineError>,
    shape: WriteShape,
    replies: Seq<Result<EngineReply, GroupEngineError>>,
) -> bool {
    match shape {
        WriteShape::Single => result == result_of(replies[0]),
        WriteShape::Several { .. } => result matches Ok(GroupWriteResponse::Batch(results))
            && results@ == replies.map_values(
            |reply: Result<EngineReply, GroupEngineError>| result_of(reply),
        ),
    }
}

/// Whether the results are those of replicated writes whose commands were answered so,
/// in order. One that failed does not keep the others from their answers.
pub open spec fn are_results(
    results: Seq<Result<GroupWriteResponse, GroupEngineError>>,
    shapes: Seq<WriteShape>,
    replies: Seq<Result<EngineReply, GroupEngineError>>,
) -> bool {
    &&& results.len() == shapes.len()
    &&& forall|i: int|
        0 <= i < results.len() ==> is_result(
            #[trigger] results[i],
            shapes[i],
            replies.subrange(start_of(shapes, i), start_of(shapes, i + 1)),
        )
}

fn take_result(reply: Result<EngineReply, GroupEngineError>) -> (r: Result<
    GroupWriteResponse,
    GroupEngineError,
>)
    ensures
        r == result_of(reply),
{
    match reply {
        Ok(reply) => Ok(reply.into_response()),
        Err(error) => Err(error),
    }
}

/// Takes the first answers off a list, as results.
fn take_results(replies: &mut Vec<Result<EngineReply, GroupEngineError>>, count: usize) -> (r: Vec<
    Result<GroupWriteResponse, GroupEngineError>,
>)
    requires
        count <= old(replies)@.len(),
    ensures
        final(replies)@ == old(replies)@.skip(count as int),
        r@ == old(replies)@.take(count as int).map_values(
            |reply: Result<EngineReply, GroupEngineError>| result_of(reply),
        ),
{
    let ghost all = replies@;
    let mut results: Vec<Result<GroupWriteResponse, GroupEngineError>> = Vec::new();
    assert(all.skip(0) =~= all);
    while results.len() < count
        invariant
            results@.len() <= count <= all.len(),
            replies@ == all.skip(results@.len() as int),
            forall|i: int|
                0 <= i < results@.len() ==> #[trigger] results@[i] == result_of(all[i]),
        decreases count - results@.len(),
    {
        let ghost n = results@.len() as int;
        let reply = replies.remove(0);
        assert(reply == all[n]);
        assert(replies@ =~= all.skip(n + 1));
        results.push(take_result(reply));
    }
    assert(results@ =~= all.take(count as int).map_values(
        |reply: Result<EngineReply, GroupEngineError>| result_of(reply),
    ));
    results
}

/// Puts an engine's answers together to the results of the replicated writes.
pub fn finish_write_batch(
    shapes: &Vec<WriteShape>,
    replies: Vec<Result<EngineReply, GroupEngineError>>,
) -> (r: Vec<Result<GroupWriteResponse, GroupEngineError>>)
    requires
        replies@.len() == start_of(shapes@, shapes@.len() as int),
    ensures
        are_results(r@, shapes@, replies@),
{
    let ghost all = replies@;
    let mut rest = replies;
    let mut results: Vec<Result<GroupWriteResponse, GroupEngineError>> = Vec::new();
    assert(all.skip(0) =~= all);
    while results.len() < shapes.len()
        invariant
            results@.len() <= shapes@.len(),
            all.len() == start_of(shapes@, shapes@.len() as int),
            rest@ == all.skip(start_of(shapes@, results@.len() as int)),
            forall|i: int|
                0 <= i < results@.len() ==> is_result(
                    #[trigger] results@[i],
                    shapes@[i],
                    all.subrange(start_of(shapes@, i), start_of(shapes@, i + 1)),
                ),
        decreases shapes@.len() - results@.len(),
    {
        let n: usize = results.len();
        let ghost from = start_of(shapes@, n as int);
        let ghost to = start_of(shapes@, n + 1);
        proof {
            lemma_start_grows(shapes@, n as int, n + 1);
            lemma_start_grows(shapes@, n + 1, shapes@.len() as int);
            assert(to == from + size_of(shapes@[n as int]));
        }
        let shape = shapes[n];
        match shape {
            WriteShape::Single => {
                let reply = rest.remove(0);
                assert(reply == all[from]);
                assert(all.subrange(from, to)[0] == reply);
                results.push(take_result(reply));
            },
            WriteShape::Several { count } => {
                assert(rest@.take(count as int) =~= all.subrange(from, to));
                let taken = take_results(&mut rest, count);
                results.push(Ok(GroupWriteResponse::Batch(taken)));
            },
        }
        assert(rest@ =~= all.skip(to));
    }
    results
}

/// An engine's answer becomes the response to the kind of write that it answers, and
/// says the same.
pub proof fn law_response_says_what_the_engine_answered(reply: EngineReply)
    ensures
        match reply {
            EngineReply::CreateStream(given) => response_of(reply) matches GroupWriteResponse::CreateStream(
                response,
            ) && response == given,
            EngineReply::CreateStreamExternal(given) => response_of(reply) matches GroupWriteResponse::CreateStream(
                response,
            ) && response == given,
            EngineReply::Append(given) => response_of(reply) matches GroupWriteResponse::Append(
                response,
            ) && response == given,
            EngineReply::AppendExternal(given) => response_of(reply) matches GroupWriteResponse::Append(
                response,
            ) && response == given,
            EngineReply::AppendBatch(given) => response_of(reply) matches GroupWriteResponse::AppendBatch(
                response,
            ) && response == given,
            EngineReply::PublishSnapshot(given) => response_of(reply) matches GroupWriteResponse::PublishSnapshot(
                response,
            ) && response == given,
            EngineReply::TouchStreamAccess(given) => response_of(reply) matches GroupWriteResponse::TouchStreamAccess(
                response,
            ) && response == given,
            EngineReply::UpdateStreamAttrs(given) => response_of(reply) matches GroupWriteResponse::UpdateStreamAttrs(
                response,
            ) && response == given,
            EngineReply::AddForkRef(given) => response_of(reply) matches GroupWriteResponse::AddForkRef(
                response,
            ) && response == given,
            EngineReply::ReleaseForkRef(given) => response_of(reply) matches GroupWriteResponse::ReleaseForkRef(
                response,
            ) && response == given,
            EngineReply::FlushCold(given) => response_of(reply) matches GroupWriteResponse::FlushCold(
                response,
            ) && response == given,
            EngineReply::CloseStream(given) => response_of(reply) matches GroupWriteResponse::CloseStream(
                response,
            ) && response == given,
            EngineReply::DeleteStream(given) => response_of(reply) matches GroupWriteResponse::DeleteStream(
                response,
            ) && response == given,
            EngineReply::AckColdGc(given) => response_of(reply) matches GroupWriteResponse::AckColdGc(
                response,
            ) && response == given,
        },
{
}

/// The commands of replicated writes are asked one behind the other: those of a batch
/// where the batch stands.
pub proof fn law_commands_keep_their_order(commands: Seq<GroupWriteCommand>)
    ensures
        all_commands(commands) == commands.map_values(
            |command: GroupWriteCommand|
                match command {
                    GroupWriteCommand::Stream(command) => seq![command],
                    GroupWriteCommand::Batch { commands } => commands@,
                },
        ).flatten(),
    decreases commands.len(),
{
    let part = |command: GroupWriteCommand|
        match command {
            GroupWriteCommand::Stream(command) => seq![command],
            GroupWriteCommand::Batch { commands } => commands@,
        };
    let parts = commands.map_values(part);
    if commands.len() > 0 {
        let front = commands.drop_last();
        law_commands_keep_their_order(front);
        let fewer = front.map_values(part);
        fewer.lemma_flatten_push(part(commands.last()));
        assert(fewer.push(part(commands.last())) =~= parts);
    } else {
        assert(parts =~= Seq::<Seq<StreamCommand>>::empty());
    }
}

/// Each command gets the answer to itself: the answer to the command at `j` of the write
/// at `i` is the answer that stands behind those to all commands before it, and stands at
/// `j` of the result of that write.
pub proof fn law_each_command_gets_its_own_answer(
    commands: Seq<GroupWriteCommand>,
    shapes: Seq<WriteShape>,
    replies: Seq<Result<EngineReply, GroupEngineError>>,
    results: Seq<Result<GroupWriteResponse, GroupEngineError>>,
    i: int,
    j: int,
)
    requires
        shapes == commands.map_values(|command: GroupWriteCommand| shape_of(command)),
        replies.len() == all_commands(commands).len(),
        are_results(results, shapes, replies),
        0 <= i < commands.len(),
        match commands[i] {
            GroupWriteCommand::Stream(_) => j == 0,
            GroupWriteCommand::Batch { commands } => 0 <= j < commands@.len(),
        },
    ensures
        results.len() == commands.len(),
        ({
            let at = all_commands(commands.take(i)).len() + j;
            &&& 0 <= at < replies.len()
            &&& match commands[i] {
                GroupWriteCommand::Stream(command) => {
                    &&& all_commands(commands)[at] == command
                    &&& match replies[at] {
                        Ok(reply) => results[i] is Ok && results[i]->Ok_0 == response_of(reply),
                        Err(error) => results[i] is Err && results[i]->Err_0 == error,
                    }
                },
                GroupWriteCommand::Batch { commands: inner } => {
                    &&& all_commands(commands)[at] == inner@[j]
                    &&& results[i] matches Ok(GroupWriteResponse::Batch(given)) && {
                        &&& given@.len() == inner@.len()
                        &&& match replies[at] {
                            Ok(reply) => given@[j] is Ok && given@[j]->Ok_0 == response_of(reply),
                            Err(error) => given@[j] is Err && given@[j]->Err_0 == error,
                        }
                    }
                },
            }
        }),
{
    let n = commands.len() as int;
    let start = start_of(shapes, i);
    lemma_starts(commands, shapes);
    lemma_start_grows(shapes, i, i + 1);
    lemma_start_grows(shapes, i + 1, n);
    let some = shapes.take(i);
    lemma_starts(commands.take(i), some);
    lemma_same_start(some, shapes, i);
    lemma_all_commands_at(commands, i, j);
    let own = replies.subrange(start_of(shapes, i), start_of(shapes, i + 1));
    assert(is_result(results[i], shapes[i], own));
    if let GroupWriteCommand::Batch { commands: inner } = commands[i] {
        assert(inner.len() == inner@.len());
    }
    assert(start_of(shapes, i + 1) == start + size_of(shapes[i]));
    assert(own[j] == replies[start + j]);
}

/// Where the command at `j` of the write at `i` stands among all.
proof fn lemma_all_commands_at(commands: Seq<GroupWriteCommand>, i: int, j: int)
    requires
        0 <= i < commands.len(),
        0 <= j < commands_of(commands[i]).len(),
    ensures
        all_commands(commands.take(i)).len() + j < all_commands(commands).len(),
        all_commands(commands)[all_commands(commands.take(i)).len() + j] == commands_of(
            commands[i],
        )[j],
    decreases commands.len(),
{
    let front = commands.drop_last();
    if i < front.len() {
        lemma_all_commands_at(front, i, j);
        assert(front.take(i) =~= commands.take(i));
        assert(front[i] == commands[i]);
    } else {
        assert(commands.take(i) =~= front);
    }
}

} // verus!
