//! Tests of what an engine may be handed.

use vstd::prelude::*;
use crate::engine::batch;
use crate::engine::in_memory::InMemoryGroupEngine;
use crate::engine::state;
use crate::engine::state::MachineAnswer;
use crate::stream::{StreamCommand, StreamResponse};
use crate::table;

verus! {

fn is_bucket_there(response: &StreamResponse) -> (r: bool)
    ensures
        r == state::bucket_is_there(*response),
{
    match response {
        StreamResponse::BucketCreated => true,
        StreamResponse::BucketAlreadyExists => true,
        _ => false,
    }
}

/// Whether a stream layer that answers so has answered the command.
pub fn is_answer(command: &StreamCommand, answer: &MachineAnswer) -> (r: bool)
    ensures
        r == state::answers(*command, *answer),
{
    match command {
        StreamCommand::AppendBatch { payloads, producer, .. } => match answer {
            MachineAnswer::Each(answers) => {
                if producer.is_some() || answers.len() != payloads.len() {
                    return false;
                }
                let mut i: usize = 0;
                while i < answers.len()
                    invariant
                        i <= answers@.len(),
                        answers@.len() == payloads@.len(),
                        forall|j: int|
                            0 <= j < i ==> ((#[trigger] answers@[j]) is Some
                                <==> payloads@[j]@.len() > 0),
                        *answer == MachineAnswer::Each(*answers),
                        command matches StreamCommand::AppendBatch { payloads: p, producer: q, .. }
                            && p == *payloads && q is None,
                    decreases answers@.len() - i,
                {
                    if answers[i].is_some() != (payloads[i].len() > 0) {
                        assert(!((answers@[i as int] is Some) <==> payloads@[i as int]@.len() > 0));
                        return false;
                    }
                    i = i + 1;
                }
                true
            },
            MachineAnswer::Whole(_) => producer.is_some(),
            _ => false,
        },
        StreamCommand::CreateStream { .. } => match answer {
            MachineAnswer::NoBucket(response) => !is_bucket_there(response),
            MachineAnswer::One(_) => true,
            _ => false,
        },
        StreamCommand::CreateExternal { .. } => match answer {
            MachineAnswer::NoBucket(response) => !is_bucket_there(response),
            MachineAnswer::One(_) => true,
            _ => false,
        },
        StreamCommand::CreateBucket { .. } => false,
        StreamCommand::DeleteBucket { .. } => false,
        _ => match answer {
            MachineAnswer::One(_) => true,
            _ => false,
        },
    }
}

/// How many writes an answer can stand for.
fn weight_of(answer: &MachineAnswer) -> (r: usize)
    ensures
        r == state::weight(*answer),
{
    match answer {
        MachineAnswer::One(_) => 1,
        MachineAnswer::NoBucket(_) => 0,
        MachineAnswer::Whole(Ok(batch)) => batch.items.len(),
        MachineAnswer::Whole(Err(_)) => 0,
        MachineAnswer::Each(answers) => answers.len(),
    }
}

impl InMemoryGroupEngine {
    /// Whether the counters have room for so many writes.
    fn has_room_of(&self, weight: u128) -> (r: bool)
        requires
            self.wf(),
        ensures
            r == self@.has_room(weight as int),
    {
        if weight > u64::MAX as u128 || self.commit_index as u128 > u64::MAX as u128 - weight {
            return false;
        }
        let counts = &self.stream_append_counts;
        let mut i: usize = 0;
        while i < counts.len()
            invariant
                counts.wf(),
                i <= counts.entries().len(),
                counts@ == self@.counts,
                weight <= u64::MAX,
                forall|j: int|
                    0 <= j < i ==> (#[trigger] counts.entries()[j]).1 + weight <= u64::MAX,
            decreases counts.entries().len() - i,
        {
            let (stream, count) = counts.entry(i);
            if *count as u128 > u64::MAX as u128 - weight {
                assert(self@.counts[stream@] + weight > u64::MAX);
                return false;
            }
            i = i + 1;
        }
        proof {
            assert forall|stream| #[trigger] self@.counts.contains_key(stream) implies self@.counts[stream]
                + weight <= u64::MAX by {
                let j = choose|j: int| table::has_key_at(counts.entries(), stream, j);
                assert(table::has_key_at(counts.entries(), stream, j));
                table::lemma_entry_map(counts.entries());
                assert(self@.counts[counts.entries()[j].0@] == counts.entries()[j].1);
            }
        }
        true
    }

    /// Whether the counters have room for what an answer can stand for.
    pub fn has_room_for(&self, answer: &MachineAnswer) -> (r: bool)
        requires
            self.wf(),
        ensures
            r == self@.has_room(state::weight(*answer)),
    {
        self.has_room_of(weight_of(answer) as u128)
    }

    /// Whether the counters have room for what several answers can stand for.
    pub fn has_room_for_all(&self, answers: &Vec<MachineAnswer>) -> (r: bool)
        requires
            self.wf(),
        ensures
            r == self@.has_room(batch::total_weight(answers@)),
    {
        let mut total: u128 = 0;
        let mut i: usize = answers.len();
        assert(answers@.skip(i as int) =~= Seq::empty());
        while i > 0
            invariant
                i <= answers@.len(),
                total == batch::total_weight(answers@.skip(i as int)),
                total <= (answers@.len() - i) * 0xffff_ffff_ffff_ffff,
                answers@.len() <= 0xffff_ffff_ffff_ffff,
            decreases i,
        {
            i = i - 1;
            let weight: usize = weight_of(&answers[i]);
            proof {
                assert(answers@.skip(i as int).drop_first() =~= answers@.skip(i + 1));
                assert(answers@.skip(i as int).first() == answers@[i as int]);
            }
            total = total + weight as u128;
        }
        assert(answers@.skip(0) =~= answers@);
        self.has_room_of(total)
    }
}

} // verus!
