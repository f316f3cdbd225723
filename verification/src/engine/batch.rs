//! Several writes at once.

use vstd::prelude::*;
use crate::command::GroupWriteCommand;
use crate::engine::errors::GroupEngineError;
use crate::engine::in_memory::InMemoryGroupEngine;
use crate::engine::laws;
use crate::engine::responses::GroupWriteResponse;
use crate::engine::state;
use crate::engine::state::{EngineState, MachineAnswer, WriteOutcome};
use crate::ids::ShardPlacement;
use crate::stream::StreamCommand;

verus! {

/// What several writes do and give, one after the other.
pub open spec fn applied_all(
    state: EngineState,
    commands: Seq<StreamCommand>,
    answers: Seq<MachineAnswer>,
    placement: ShardPlacement,
) -> (EngineState, Seq<WriteOutcome>)
    decreases commands.len(),
{
    if commands.len() == 0 {
        (state, Seq::empty())
    } else {
        let (before, outcomes) = applied_all(
            state,
            commands.drop_last(),
            answers.drop_last(),
            placement,
        );
        let (after, outcome) = state::applied(before, commands.last(), answers.last(), placement);
        (after, outcomes.push(outcome))
    }
}

/// How many writes several answers can stand for.
pub open spec fn total_weight(answers: Seq<MachineAnswer>) -> int
    decreases answers.len(),
{
    if answers.len() == 0 {
        0
    } else {
        state::weight(answers.first()) + total_weight(answers.drop_first())
    }
}

/// Whether the answers can be the answers to the commands.
pub open spec fn answers_all(commands: Seq<StreamCommand>, answers: Seq<MachineAnswer>) -> bool {
    &&& commands.len() == answers.len()
    &&& forall|i: int|
        0 <= i < commands.len() ==> state::answers(#[trigger] commands[i], answers[i])
}

/// Whether the results are the expected outcomes.
pub open spec fn are_outcomes(
    results: Seq<Result<GroupWriteResponse, GroupEngineError>>,
    outcomes: Seq<WriteOutcome>,
) -> bool {
    &&& results.len() == outcomes.len()
    &&& forall|i: int|
        0 <= i < results.len() ==> state::is_outcome(#[trigger] results[i], outcomes[i])
}

proof fn lemma_total_weight(answers: Seq<MachineAnswer>)
    ensures
        total_weight(answers) >= 0,
    decreases answers.len(),
{
    if answers.len() > 0 {
        lemma_total_weight(answers.drop_first());
    }
}

impl InMemoryGroupEngine {
    /// Applies several writes one after the other. One that is refused does not
    /// keep the others from being applied.
    pub fn apply_committed_write_batch(
        &mut self,
        commands: &Vec<StreamCommand>,
        answers: Vec<MachineAnswer>,
        placement: ShardPlacement,
    ) -> (r: Vec<Result<GroupWriteResponse, GroupEngineError>>)
        requires
            old(self).wf(),
            answers_all(commands@, answers@),
            old(self)@.has_room(total_weight(answers@)),
        ensures
            final(self).wf(),
            final(self)@ == applied_all(old(self)@, commands@, answers@, placement).0,
            are_outcomes(r@, applied_all(old(self)@, commands@, answers@, placement).1),
    {
        let ghost all = answers@;
        let ghost before = self@;
        let mut rest = answers;
        let mut results: Vec<Result<GroupWriteResponse, GroupEngineError>> = Vec::new();
        assert(commands@.take(0) =~= Seq::empty());
        assert(all.skip(0) =~= all);
        while rest.len() > 0
            invariant
                self.wf(),
                before == old(self)@,
                answers_all(commands@, all),
                results@.len() + rest@.len() == all.len(),
                rest@ == all.skip(results@.len() as int),
                self@.has_room(total_weight(rest@)),
                self@ == applied_all(
                    before,
                    commands@.take(results@.len() as int),
                    all.take(results@.len() as int),
                    placement,
                ).0,
                are_outcomes(
                    results@,
                    applied_all(
                        before,
                        commands@.take(results@.len() as int),
                        all.take(results@.len() as int),
                        placement,
                    ).1,
                ),
            decreases rest@.len(),
        {
            let i: usize = results.len();
            let ghost left = rest@;
            let answer = rest.remove(0);
            proof {
                assert(answer == all[i as int]);
                assert(left.drop_first() =~= rest@);
                lemma_total_weight(rest@);
                laws::lemma_room(
                    self@,
                    commands@[i as int],
                    answer,
                    placement,
                    total_weight(rest@),
                );
                assert(commands@.take(i + 1).drop_last() =~= commands@.take(i as int));
                assert(all.take(i + 1).drop_last() =~= all.take(i as int));
                assert(rest@ =~= all.skip(i + 1));
            }
            let result = self.apply_committed_write(&commands[i], answer, placement);
            results.push(result);
        }
        assert(commands@.take(commands@.len() as int) =~= commands@);
        assert(all.take(all.len() as int) =~= all);
        results
    }

    /// Applies a replicated write: a command, or several as one entry.
    pub fn apply_group_write(
        &mut self,
        command: &GroupWriteCommand,
        answers: Vec<MachineAnswer>,
        placement: ShardPlacement,
    ) -> (r: Result<GroupWriteResponse, GroupEngineError>)
        requires
            old(self).wf(),
            old(self)@.has_room(total_weight(answers@)),
            match *command {
                GroupWriteCommand::Stream(command) => answers_all(seq![command], answers@),
                GroupWriteCommand::Batch { commands } => answers_all(commands@, answers@),
            },
        ensures
            final(self).wf(),
            match *command {
                GroupWriteCommand::Stream(command) => {
                    let (after, outcome) = state::applied(
                        old(self)@,
                        command,
                        answers@[0],
                        placement,
                    );
                    final(self)@ == after && state::is_outcome(r, outcome)
                },
                GroupWriteCommand::Batch { commands } => {
                    let (after, outcomes) = applied_all(
                        old(self)@,
                        commands@,
                        answers@,
                        placement,
                    );
                    final(self)@ == after && r is Ok && (r->Ok_0 matches GroupWriteResponse::Batch(
                        results,
                    ) && are_outcomes(results@, outcomes))
                },
            },
    {
        match command {
            GroupWriteCommand::Stream(command) => {
                let mut answers = answers;
                proof {
                    assert(seq![*command][0] == *command);
                    lemma_total_weight(answers@.drop_first());
                }
                let answer = answers.remove(0);
                self.apply_committed_write(command, answer, placement)
            },
            GroupWriteCommand::Batch { commands } => Ok(
                GroupWriteResponse::Batch(
                    self.apply_committed_write_batch(commands, answers, placement),
                ),
            ),
        }
    }
}

/// A single write does and gives what it does and gives by itself.
pub proof fn law_batch_of_one(
    state: EngineState,
    command: StreamCommand,
    answer: MachineAnswer,
    placement: ShardPlacement,
)
    ensures
        applied_all(state, seq![command], seq![answer], placement) == (
            state::applied(state, command, answer, placement).0,
            seq![state::applied(state, command, answer, placement).1],
        ),
{
    let commands = seq![command];
    let answers = seq![answer];
    assert(commands.drop_last() =~= Seq::empty());
    assert(applied_all(state, commands.drop_last(), answers.drop_last(), placement) == (
        state,
        Seq::<WriteOutcome>::empty(),
    ));
    assert(Seq::<WriteOutcome>::empty().push(
        state::applied(state, command, answer, placement).1,
    ) =~= seq![state::applied(state, command, answer, placement).1]);
}

/// Writes that follow others find the state that those have left, and what comes of them
/// follows what came of those: a batch can be parted anywhere.
pub proof fn law_batch_is_one_write_after_the_other(
    state: EngineState,
    first: Seq<StreamCommand>,
    first_answers: Seq<MachineAnswer>,
    second: Seq<StreamCommand>,
    second_answers: Seq<MachineAnswer>,
    placement: ShardPlacement,
)
    requires
        first.len() == first_answers.len(),
        second.len() == second_answers.len(),
    ensures
        ({
            let (middle, outcomes) = applied_all(state, first, first_answers, placement);
            let (after, more) = applied_all(middle, second, second_answers, placement);
            applied_all(state, first + second, first_answers + second_answers, placement) == (
                after,
                outcomes + more,
            )
        }),
    decreases second.len(),
{
    let (middle, outcomes) = applied_all(state, first, first_answers, placement);
    if second.len() == 0 {
        assert(first + second =~= first);
        assert(first_answers + second_answers =~= first_answers);
        assert(outcomes + Seq::<WriteOutcome>::empty() =~= outcomes);
    } else {
        law_batch_is_one_write_after_the_other(
            state,
            first,
            first_answers,
            second.drop_last(),
            second_answers.drop_last(),
            placement,
        );
        assert((first + second).drop_last() =~= first + second.drop_last());
        assert((first_answers + second_answers).drop_last() =~= first_answers
            + second_answers.drop_last());
        let (after, more) = applied_all(middle, second, second_answers, placement);
        let fewer = applied_all(
            middle,
            second.drop_last(),
            second_answers.drop_last(),
            placement,
        ).1;
        let last = state::applied(
            applied_all(middle, second.drop_last(), second_answers.drop_last(), placement).0,
            second.last(),
            second_answers.last(),
            placement,
        ).1;
        assert((outcomes + fewer).push(last) =~= outcomes + fewer.push(last));
    }
}

} // verus!
