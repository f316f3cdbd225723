//! Names of cold objects.

use vstd::prelude::*;
use crate::ids::{BucketStreamId, StreamName};
use crate::text;
use crate::text::{hexadecimal_text, zero_padded_text};

verus! {

/// Numbers the objects that one process creates.
#[derive(Debug)]
pub struct ColdObjectSequence {
    next: u64,
}

impl ColdObjectSequence {
    /// The number of the next object.
    pub closed spec fn next(&self) -> u64 {
        self.next
    }

    pub fn new() -> (r: Self)
        ensures
            r.next() == 0,
    {
        ColdObjectSequence { next: 0 }
    }

    /// Gives out the next number; behind the last number comes zero.
    pub fn take(&mut self) -> (r: u64)
        ensures
            r == old(self).next(),
            final(self).next() == if old(self).next() == u64::MAX {
                0
            } else {
                old(self).next() + 1
            },
    {
        let number: u64 = self.next;
        self.next = self.next.wrapping_add(1);
        number
    }
}

/// Starts the numbers over, so that a simulated run begins as every other.
pub fn reset_cold_chunk_sequence_for_sim(sequence: &mut ColdObjectSequence)
    ensures
        final(sequence).next() == 0,
{
    sequence.next = 0;
}

/// A hexadecimal numeral with leading zeros.
pub open spec fn padded_hex(value: nat, width: nat) -> Seq<char> {
    text::zero_padded(text::hexadecimal(value), width)
}

fn padded_hex_text(value: u128, width: usize) -> (r: String)
    ensures
        r@ == padded_hex(value as nat, width as nat),
{
    zero_padded_text(hexadecimal_text(value).as_str(), width)
}

/// The prefix of all cold chunks of a stream.
pub open spec fn chunk_prefix(stream: StreamName) -> Seq<char> {
    stream.text() + "/chunks/"@
}

/// The path of a cold chunk.
pub open spec fn chunk_path(
    stream: StreamName,
    start_offset: u64,
    end_offset: u64,
    unix_nanos: u128,
    number: u64,
) -> Seq<char> {
    chunk_prefix(stream) + padded_hex(start_offset as nat, 16) + "-"@ + padded_hex(
        end_offset as nat,
        16,
    ) + "-"@ + padded_hex(unix_nanos as nat, 32) + "-"@ + padded_hex(number as nat, 16) + ".bin"@
}

/// The path of an external payload.
pub open spec fn external_path(stream: StreamName, unix_nanos: u128, number: u64) -> Seq<char> {
    stream.text() + "/external/"@ + padded_hex(unix_nanos as nat, 32) + "-"@ + padded_hex(
        number as nat,
        16,
    ) + ".bin"@
}

/// The prefix under which all cold chunks of a stream live. Taking away
/// everything under it takes away every chunk of the stream.
pub fn cold_chunk_prefix(stream_id: &BucketStreamId) -> (r: String)
    ensures
        r@ == chunk_prefix(stream_id@),
{
    let mut path = stream_id.text();
    path.append("/chunks/");
    path
}

/// The path of a new cold chunk that is made at `unix_nanos`.
pub fn new_cold_chunk_path(
    stream_id: &BucketStreamId,
    start_offset: u64,
    end_offset: u64,
    unix_nanos: u128,
    sequence: &mut ColdObjectSequence,
) -> (r: String)
    ensures
        r@ == chunk_path(
            stream_id@,
            start_offset,
            end_offset,
            unix_nanos,
            old(sequence).next(),
        ),
        final(sequence).next() == if old(sequence).next() == u64::MAX {
            0
        } else {
            old(sequence).next() + 1
        },
{
    let number: u64 = sequence.take();
    let mut path = cold_chunk_prefix(stream_id);
    path.append(padded_hex_text(start_offset as u128, 16).as_str());
    path.append("-");
    path.append(padded_hex_text(end_offset as u128, 16).as_str());
    path.append("-");
    path.append(padded_hex_text(unix_nanos, 32).as_str());
    path.append("-");
    path.append(padded_hex_text(number as u128, 16).as_str());
    path.append(".bin");
    path
}

/// The path of a new external payload that is made at `unix_nanos`.
pub fn new_external_payload_path(
    stream_id: &BucketStreamId,
    unix_nanos: u128,
    sequence: &mut ColdObjectSequence,
) -> (r: String)
    ensures
        r@ == external_path(stream_id@, unix_nanos, old(sequence).next()),
        final(sequence).next() == if old(sequence).next() == u64::MAX {
            0
        } else {
            old(sequence).next() + 1
        },
{
    let number: u64 = sequence.take();
    let mut path = stream_id.text();
    path.append("/external/");
    path.append(padded_hex_text(unix_nanos, 32).as_str());
    path.append("-");
    path.append(padded_hex_text(number as u128, 16).as_str());
    path.append(".bin");
    path
}

/// Every chunk of a stream lives under the chunk prefix of the stream.
pub proof fn law_chunks_live_under_their_prefix(
    stream: StreamName,
    start_offset: u64,
    end_offset: u64,
    unix_nanos: u128,
    number: u64,
)
    ensures
        text::begins_with(
            chunk_path(stream, start_offset, end_offset, unix_nanos, number),
            chunk_prefix(stream),
        ),
{
    let prefix = chunk_prefix(stream);
    let path = chunk_path(stream, start_offset, end_offset, unix_nanos, number);
    assert(path.take(prefix.len() as int) =~= prefix);
}

/// The last `count` characters.
spec fn tail(path: Seq<char>, count: int) -> Seq<char> {
    path.skip(path.len() - count)
}

proof fn lemma_number_tail(front: Seq<char>, number: u64)
    ensures
        ({
            let path = front + padded_hex(number as nat, 16) + ".bin"@;
            &&& path.len() >= 20
            &&& tail(path, 20) == padded_hex(number as nat, 16) + ".bin"@
        }),
{
    reveal_strlit(".bin");
    text::lemma_hexadecimal_len(number as nat, 16);
    let path = front + padded_hex(number as nat, 16) + ".bin"@;
    assert(padded_hex(number as nat, 16).len() == 16);
    assert(tail(path, 20) =~= padded_hex(number as nat, 16) + ".bin"@);
}

proof fn lemma_same_tail(left: Seq<char>, a: u64, right: Seq<char>, b: u64)
    requires
        left + padded_hex(a as nat, 16) + ".bin"@ == right + padded_hex(b as nat, 16) + ".bin"@,
    ensures
        a == b,
{
    reveal_strlit(".bin");
    lemma_number_tail(left, a);
    lemma_number_tail(right, b);
    text::lemma_hexadecimal_len(a as nat, 16);
    text::lemma_hexadecimal_len(b as nat, 16);
    let x = padded_hex(a as nat, 16);
    let y = padded_hex(b as nat, 16);
    assert(x + ".bin"@ == y + ".bin"@);
    assert(x =~= (x + ".bin"@).take(16));
    assert(y =~= (y + ".bin"@).take(16));
    text::lemma_padded_hexadecimal_value(a as nat, 16);
    text::lemma_padded_hexadecimal_value(b as nat, 16);
}

/// Two chunk paths with different object numbers differ, whatever else they
/// name.
pub proof fn law_chunk_paths_are_distinct(
    stream: StreamName,
    other: StreamName,
    offsets: (u64, u64),
    other_offsets: (u64, u64),
    nanos: u128,
    other_nanos: u128,
    number: u64,
    other_number: u64,
)
    requires
        number != other_number,
    ensures
        chunk_path(stream, offsets.0, offsets.1, nanos, number) != chunk_path(
            other,
            other_offsets.0,
            other_offsets.1,
            other_nanos,
            other_number,
        ),
{
    let left = chunk_prefix(stream) + padded_hex(offsets.0 as nat, 16) + "-"@ + padded_hex(
        offsets.1 as nat,
        16,
    ) + "-"@ + padded_hex(nanos as nat, 32) + "-"@;
    let right = chunk_prefix(other) + padded_hex(other_offsets.0 as nat, 16) + "-"@ + padded_hex(
        other_offsets.1 as nat,
        16,
    ) + "-"@ + padded_hex(other_nanos as nat, 32) + "-"@;
    if chunk_path(stream, offsets.0, offsets.1, nanos, number) == chunk_path(
        other,
        other_offsets.0,
        other_offsets.1,
        other_nanos,
        other_number,
    ) {
        lemma_same_tail(left, number, right, other_number);
    }
}

/// Two external paths with different object numbers differ.
pub proof fn law_external_paths_are_distinct(
    stream: StreamName,
    other: StreamName,
    nanos: u128,
    other_nanos: u128,
    number: u64,
    other_number: u64,
)
    requires
        number != other_number,
    ensures
        external_path(stream, nanos, number) != external_path(other, other_nanos, other_number),
{
    let left = stream.text() + "/external/"@ + padded_hex(nanos as nat, 32) + "-"@;
    let right = other.text() + "/external/"@ + padded_hex(other_nanos as nat, 32) + "-"@;
    if external_path(stream, nanos, number) == external_path(other, other_nanos, other_number) {
        lemma_same_tail(left, number, right, other_number);
    }
}

/// No external payload lives under the chunk prefix of its stream: taking the chunks away
/// leaves it.
pub proof fn law_external_payloads_are_no_chunks(
    stream: StreamName,
    unix_nanos: u128,
    number: u64,
)
    ensures
        !text::begins_with(external_path(stream, unix_nanos, number), chunk_prefix(stream)),
        text::begins_with(external_path(stream, unix_nanos, number), stream.text()),
{
    reveal_strlit("/chunks/");
    reveal_strlit("/external/");
    let path = external_path(stream, unix_nanos, number);
    let prefix = chunk_prefix(stream);
    let n = stream.text().len() as int;
    assert(prefix[n + 1] == 'c');
    assert(path[n + 1] == 'e');
    if text::begins_with(path, prefix) {
        assert(path.take(prefix.len() as int)[n + 1] == path[n + 1]);
    }
    assert(path.take(n) =~= stream.text());
}

} // verus!
