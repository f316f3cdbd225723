//! The order of streams: by bucket, then by stream, as text is ordered.

use vstd::prelude::*;
use vstd::utf8;
use crate::ids::{BucketStreamId, StreamName};

verus! {

/// Whether `left` stands before `right` in the order of their bytes.
pub open spec fn bytes_precede(left: Seq<u8>, right: Seq<u8>) -> bool
    decreases left.len(),
{
    if right.len() == 0 {
        false
    } else if left.len() == 0 {
        true
    } else if left[0] != right[0] {
        left[0] < right[0]
    } else {
        bytes_precede(left.drop_first(), right.drop_first())
    }
}

/// Whether `left` stands before `right`, as text is ordered.
pub open spec fn text_precedes(left: Seq<char>, right: Seq<char>) -> bool {
    bytes_precede(utf8::encode_utf8(left), utf8::encode_utf8(right))
}

/// Whether `left` stands before `right`.
pub open spec fn stream_precedes(left: StreamName, right: StreamName) -> bool {
    text_precedes(left.bucket, right.bucket) || (left.bucket == right.bucket && text_precedes(
        left.stream,
        right.stream,
    ))
}

proof fn lemma_bytes_order(a: Seq<u8>, b: Seq<u8>, c: Seq<u8>)
    ensures
        !bytes_precede(a, a),
        bytes_precede(a, b) || bytes_precede(b, a) || a == b,
        bytes_precede(a, b) && bytes_precede(b, c) ==> bytes_precede(a, c),
    decreases a.len() + b.len() + c.len(),
{
    if a.len() > 0 {
        lemma_bytes_order(a.drop_first(), Seq::empty(), Seq::empty());
    }
    if a.len() > 0 && b.len() > 0 {
        let rest = if c.len() > 0 {
            c.drop_first()
        } else {
            c
        };
        lemma_bytes_order(a.drop_first(), b.drop_first(), rest);
        if a[0] == b[0] && a.drop_first() == b.drop_first() {
            assert(a =~= b) by {
                assert forall|i: int| 0 <= i < a.len() implies a[i] == b[i] by {
                    if i > 0 {
                        assert(a.drop_first()[i - 1] == a[i]);
                        assert(b.drop_first()[i - 1] == b[i]);
                    }
                }
                assert(a.drop_first().len() == a.len() - 1);
                assert(b.drop_first().len() == b.len() - 1);
            }
        }
    } else if a.len() == 0 && b.len() == 0 {
        assert(a =~= b);
    }
}

/// No stream stands before itself, of two streams one stands before the other,
/// and what stands before a stream stands before all that come after it.
pub proof fn law_streams_are_ordered(a: StreamName, b: StreamName, c: StreamName)
    ensures
        !stream_precedes(a, a),
        stream_precedes(a, b) || stream_precedes(b, a) || a == b,
        !(stream_precedes(a, b) && stream_precedes(b, a)),
        stream_precedes(a, b) && stream_precedes(b, c) ==> stream_precedes(a, c),
{
    lemma_text_order(a.bucket, b.bucket, c.bucket);
    lemma_text_order(a.stream, b.stream, c.stream);
    lemma_text_order(a.bucket, b.bucket, a.bucket);
    lemma_text_order(a.stream, b.stream, a.stream);
}

proof fn lemma_text_order(a: Seq<char>, b: Seq<char>, c: Seq<char>)
    ensures
        !text_precedes(a, a),
        text_precedes(a, b) || text_precedes(b, a) || a == b,
        text_precedes(a, b) && text_precedes(b, c) ==> text_precedes(a, c),
{
    lemma_bytes_order(utf8::encode_utf8(a), utf8::encode_utf8(b), utf8::encode_utf8(c));
    utf8::encode_utf8_decode_utf8(a);
    utf8::encode_utf8_decode_utf8(b);
}

/// Whether `left` stands before `right`, as text is ordered.
pub fn text_before(left: &String, right: &String) -> (r: bool)
    ensures
        r == text_precedes(left@, right@),
{
    let a = left.as_str().as_bytes();
    let b = right.as_str().as_bytes();
    let mut i: usize = 0;
    assert(a@.skip(0) =~= a@);
    assert(b@.skip(0) =~= b@);
    while i < a.len() && i < b.len()
        invariant
            i <= a@.len(),
            i <= b@.len(),
            a@ == utf8::encode_utf8(left@),
            b@ == utf8::encode_utf8(right@),
            bytes_precede(a@, b@) == bytes_precede(a@.skip(i as int), b@.skip(i as int)),
        decreases a@.len() - i,
    {
        assert(a@.skip(i as int)[0] == a@[i as int]);
        assert(b@.skip(i as int)[0] == b@[i as int]);
        if a[i] != b[i] {
            return a[i] < b[i];
        }
        assert(a@.skip(i as int).drop_first() =~= a@.skip(i + 1));
        assert(b@.skip(i as int).drop_first() =~= b@.skip(i + 1));
        i = i + 1;
    }
    i < b.len()
}

/// Whether `left` stands before `right`.
pub fn stream_before(left: &BucketStreamId, right: &BucketStreamId) -> (r: bool)
    ensures
        r == stream_precedes(left@, right@),
{
    if text_before(&left.bucket_id, &right.bucket_id) {
        return true;
    }
    left.bucket_id == right.bucket_id && text_before(&left.stream_id, &right.stream_id)
}

/// The first byte in which two texts differ decides which stands first: the one with the
/// smaller byte. A text stands before those that go on where it ends.
pub proof fn law_first_difference_decides(left: Seq<u8>, right: Seq<u8>, at: int)
    requires
        0 <= at <= left.len(),
        at < right.len(),
        forall|i: int| 0 <= i < at ==> #[trigger] left[i] == right[i],
        at < left.len() ==> left[at] != right[at],
    ensures
        bytes_precede(left, right) <==> at == left.len() || left[at] < right[at],
    decreases at,
{
    if at > 0 {
        assert(left[0] == right[0]);
        let rest = left.drop_first();
        let other = right.drop_first();
        assert forall|i: int| 0 <= i < at - 1 implies #[trigger] rest[i] == other[i] by {
            assert(rest[i] == left[i + 1]);
            assert(other[i] == right[i + 1]);
        }
        law_first_difference_decides(rest, other, at - 1);
    }
}

/// Streams stand in the order of their buckets, and those of one bucket in the order of
/// their own names.
pub proof fn law_bucket_decides_first(a: StreamName, b: StreamName)
    ensures
        bytes_precede(utf8::encode_utf8(a.bucket), utf8::encode_utf8(b.bucket))
            ==> stream_precedes(a, b),
        bytes_precede(utf8::encode_utf8(b.bucket), utf8::encode_utf8(a.bucket))
            ==> !stream_precedes(a, b),
        a.bucket == b.bucket ==> stream_precedes(a, b) == bytes_precede(
            utf8::encode_utf8(a.stream),
            utf8::encode_utf8(b.stream),
        ),
{
    lemma_text_order(a.bucket, b.bucket, a.bucket);
}

} // verus!
