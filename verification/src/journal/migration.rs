//! Turning a legacy journal, whose frames have neither a header nor checksums,
//! into the current form.

use vstd::prelude::*;
use crate::journal::frames;
use crate::journal::frames::{append, is_journal_magic, FrameAt};
use crate::journal::laws;
use crate::journal::{FrameCodec, JournalError, JournalFault, MAX_FRAME_PAYLOAD_BYTES};
use crate::wire;
use crate::wire::get_le;

verus! {

/// A legacy frame: the length of the payload and the payload.
pub open spec fn legacy_frame_bytes(payload: Seq<u8>) -> Seq<u8> {
    wire::le_bytes(payload.len(), 4) + payload
}

/// What stands at `at` of a legacy journal, behind `index` frames.
pub open spec fn legacy_frame_at<C: FrameCodec>(bytes: Seq<u8>, at: nat, index: nat) -> FrameAt<
    <C::Record as View>::V,
> {
    let frame = (index + 1) as u64;
    let start = at as int;
    let len = wire::le_value(bytes.subrange(start, start + 4));
    let payload = bytes.subrange(start + 4, start + 4 + len);
    if bytes.len() - at < 4 {
        FrameAt::Torn
    } else if len > MAX_FRAME_PAYLOAD_BYTES {
        FrameAt::Faulty(JournalFault::FrameTooLarge { frame, len: len as u64 })
    } else if bytes.len() - at - 4 < len {
        FrameAt::Torn
    } else {
        match C::record_of(payload) {
            Err(fault) => FrameAt::Faulty(JournalFault::DecodeFailed { frame, fault }),
            Ok(record) => if C::payload_of(record).len() > MAX_FRAME_PAYLOAD_BYTES {
                FrameAt::Faulty(
                    JournalFault::RecordTooLarge { len: C::payload_of(record).len() as u64 },
                )
            } else {
                FrameAt::Record { record, next: at + 4 + len }
            },
        }
    }
}

/// The records of a legacy journal from `at` on. A torn tail is left out.
pub open spec fn legacy_scan<C: FrameCodec>(bytes: Seq<u8>, at: nat, index: nat) -> Result<
    Seq<<C::Record as View>::V>,
    JournalFault,
>
    decreases bytes.len() - at,
{
    if at >= bytes.len() {
        Ok(Seq::empty())
    } else {
        match legacy_frame_at::<C>(bytes, at, index) {
            FrameAt::Torn => Ok(Seq::empty()),
            FrameAt::Faulty(fault) => Err(fault),
            FrameAt::Record { record, next } => if next <= at {
                Ok(Seq::empty())
            } else {
                match legacy_scan::<C>(bytes, next, index + 1) {
                    Ok(rest) => Ok(seq![record] + rest),
                    Err(fault) => Err(fault),
                }
            },
        }
    }
}

/// Whether a journal begins as a current journal does.
pub open spec fn has_magic(bytes: Seq<u8>) -> bool {
    bytes.len() >= 8 && bytes.subrange(0, 8) == frames::journal_magic()
}

/// The current form of a legacy journal; none where there is nothing to
/// migrate.
pub open spec fn migrated<C: FrameCodec>(bytes: Seq<u8>) -> Result<Option<Seq<u8>>, JournalFault> {
    if bytes.len() == 0 || has_magic(bytes) {
        Ok(None)
    } else {
        match legacy_scan::<C>(bytes, 0, 0) {
            Err(fault) => Err(fault),
            Ok(records) => if records.len() == 0 {
                Err(JournalFault::NoCompleteFrame)
            } else {
                Ok(Some(laws::journal_bytes::<C>(records)))
            },
        }
    }
}

/// Records put in front of what a legacy scan gave.
spec fn legacy_prepend<V>(records: Seq<V>, scanned: Result<Seq<V>, JournalFault>) -> Result<
    Seq<V>,
    JournalFault,
> {
    match scanned {
        Ok(rest) => Ok(records + rest),
        Err(fault) => Err(fault),
    }
}

/// The journal under construction: nothing before the first record.
spec fn draft_bytes<C: FrameCodec>(records: Seq<<C::Record as View>::V>) -> Seq<u8> {
    if records.len() == 0 {
        Seq::empty()
    } else {
        laws::journal_bytes::<C>(records)
    }
}

proof fn lemma_draft_step<C: FrameCodec>(
    records: Seq<<C::Record as View>::V>,
    record: <C::Record as View>::V,
)
    ensures
        frames::append_fault(draft_bytes::<C>(records)) is None,
        frames::appended(draft_bytes::<C>(records), C::payload_of(record)) == draft_bytes::<C>(
            records.push(record),
        ),
{
    let more = records.push(record);
    assert(more.drop_last() =~= records);
    laws::lemma_header_is_sound();
    let frame = frames::frame_bytes(C::payload_of(record));
    if records.len() == 0 {
        assert(laws::frame_list::<C>(records) =~= Seq::empty());
        assert(frames::header_bytes() + frame =~= laws::journal_bytes::<C>(more));
    } else {
        let draft = laws::journal_bytes::<C>(records);
        assert(draft.subrange(0, 16) =~= frames::header_bytes());
        assert(draft + frame =~= laws::journal_bytes::<C>(more));
    }
}

/// The current form of a legacy journal. An empty journal and one that begins
/// with the magic are left alone; a torn tail is left out.
pub fn migrate_legacy<C: FrameCodec>(journal: &[u8]) -> (r: Result<Option<Vec<u8>>, JournalError>)
    ensures
        match migrated::<C>(journal@) {
            Ok(Some(bytes)) => r is Ok && r->Ok_0 is Some && r->Ok_0->Some_0@ == bytes,
            Ok(None) => r is Ok && r->Ok_0 is None,
            Err(fault) => r is Err && r->Err_0@ == fault,
        },
{
    let total: usize = journal.len();
    if total == 0 {
        return Ok(None);
    }
    if total >= 8 && is_journal_magic(vstd::slice::slice_subrange(journal, 0, 8)) {
        return Ok(None);
    }
    let ghost mut records: Seq<<C::Record as View>::V> = Seq::empty();
    let mut draft: Vec<u8> = Vec::new();
    let mut at: usize = 0;
    let mut found: u64 = 0;
    proof {
        match legacy_scan::<C>(journal@, 0, 0) {
            Ok(rest) => {
                assert(records + rest =~= rest);
            },
            Err(_) => {},
        }
    }
    while total - at >= 4
        invariant
            total == journal@.len(),
            0 < total,
            !has_magic(journal@),
            at <= total,
            found == records.len(),
            found * 4 <= at,
            draft@ == draft_bytes::<C>(records),
            legacy_scan::<C>(journal@, 0, 0) == legacy_prepend(
                records,
                legacy_scan::<C>(journal@, at as nat, found as nat),
            ),
        ensures
            legacy_scan::<C>(journal@, at as nat, found as nat) == Ok::<
                Seq<<C::Record as View>::V>,
                JournalFault,
            >(Seq::empty()),
        decreases total - at,
    {
        let head = vstd::slice::slice_subrange(journal, at, at + 4);
        proof {
            wire::lemma_le_bytes_of_le_value(head@);
            wire::lemma_byte_limits();
        }
        let len: u64 = get_le(head);
        if len > MAX_FRAME_PAYLOAD_BYTES as u64 {
            return Err(JournalError::FrameTooLarge { frame: found + 1, len });
        }
        if ((total - at - 4) as u64) < len {
            break;
        }
        let payload = vstd::slice::slice_subrange(journal, at + 4, at + 4 + len as usize);
        let record = match C::decode(payload) {
            Ok(record) => record,
            Err(error) => {
                return Err(JournalError::DecodeFailed { frame: found + 1, error });
            },
        };
        proof {
            lemma_draft_step::<C>(records, record@);
        }
        match append::<C>(&mut draft, &record) {
            Ok(_) => {},
            Err(error) => {
                return Err(error);
            },
        }
        proof {
            let next = (at + 4 + len) as nat;
            match legacy_scan::<C>(journal@, next, (found + 1) as nat) {
                Ok(rest) => {
                    assert(records + (seq![record@] + rest) =~= records.push(record@) + rest);
                },
                Err(_) => {},
            }
            records = records.push(record@);
        }
        at = at + 4 + len as usize;
        found = found + 1;
    }
    assert(records + Seq::<<C::Record as View>::V>::empty() =~= records);
    if found == 0 {
        return Err(JournalError::NoCompleteFrame);
    }
    Ok(Some(draft))
}

// ---------------------------------------------------------------------------
// Laws
// ---------------------------------------------------------------------------

/// The legacy journal of `records`.
pub open spec fn legacy_bytes<C: FrameCodec>(records: Seq<<C::Record as View>::V>) -> Seq<u8>
    decreases records.len(),
{
    if records.len() == 0 {
        Seq::empty()
    } else {
        legacy_frame_bytes(C::payload_of(records[0])) + legacy_bytes::<C>(records.drop_first())
    }
}

proof fn lemma_legacy_scan<C: FrameCodec>(
    front: Seq<u8>,
    records: Seq<<C::Record as View>::V>,
    index: nat,
)
    requires
        forall|i: int| 0 <= i < records.len() ==> laws::storable::<C>(#[trigger] records[i]),
    ensures
        legacy_scan::<C>(front + legacy_bytes::<C>(records), front.len(), index) == Ok::<
            Seq<<C::Record as View>::V>,
            JournalFault,
        >(records),
    decreases records.len(),
{
    let all = front + legacy_bytes::<C>(records);
    if records.len() == 0 {
        assert(records =~= Seq::empty());
    } else {
        let rest = records.drop_first();
        let record = records[0];
        let payload = C::payload_of(record);
        let frame = legacy_frame_bytes(payload);
        let start = front.len() as int;
        wire::lemma_byte_limits();
        wire::lemma_le_value_of_le_bytes(payload.len(), 4);
        assert(all.subrange(start, start + 4) =~= wire::le_bytes(payload.len(), 4));
        assert(all.subrange(start + 4, start + 4 + payload.len()) =~= payload);
        assert forall|i: int| 0 <= i < rest.len() implies laws::storable::<C>(
            #[trigger] rest[i],
        ) by {
            assert(rest[i] == records[i + 1]);
        }
        lemma_legacy_scan::<C>(front + frame, rest, index + 1);
        assert(front + frame + legacy_bytes::<C>(rest) =~= all);
        assert(seq![record] + rest =~= records);
    }
}

/// Read as a length, the magic is above the limit of a frame.
proof fn lemma_magic_is_no_length()
    ensures
        wire::le_value(frames::journal_magic().subrange(0, 4)) > MAX_FRAME_PAYLOAD_BYTES,
{
    let head = frames::journal_magic().subrange(0, 4);
    let a = head.drop_first();
    let b = a.drop_first();
    let c = b.drop_first();
    assert(head[0] == 0x55 && a[0] == 0x52 && b[0] == 0x53 && c[0] == 0x4a);
    reveal_with_fuel(wire::le_value, 5);
}

/// Migrating a legacy journal keeps its records in order: the result is the
/// journal of the same records, from which replay gives them back.
pub proof fn law_migration_preserves_records<C: FrameCodec>(
    records: Seq<<C::Record as View>::V>,
    short: JournalFault,
)
    requires
        records.len() > 0,
        forall|i: int| 0 <= i < records.len() ==> laws::storable::<C>(#[trigger] records[i]),
    ensures
        migrated::<C>(legacy_bytes::<C>(records)) == Ok::<Option<Seq<u8>>, JournalFault>(
            Some(laws::journal_bytes::<C>(records)),
        ),
        frames::journal_scan::<C>(laws::journal_bytes::<C>(records), short) == Ok::<
            (Seq<<C::Record as View>::V>, nat),
            JournalFault,
        >((records, laws::journal_bytes::<C>(records).len())),
{
    let bytes = legacy_bytes::<C>(records);
    lemma_legacy_scan::<C>(Seq::empty(), records, 0);
    assert(Seq::empty() + bytes =~= bytes);
    laws::law_replay_gives_appended_records::<C>(records, short);
    let payload = C::payload_of(records[0]);
    wire::lemma_byte_limits();
    wire::lemma_le_value_of_le_bytes(payload.len(), 4);
    assert(bytes =~= legacy_frame_bytes(payload) + legacy_bytes::<C>(records.drop_first()));
    assert(bytes.subrange(0, 4) =~= wire::le_bytes(payload.len(), 4));
    if has_magic(bytes) {
        lemma_magic_is_no_length();
        assert(bytes.subrange(0, 8).subrange(0, 4) =~= bytes.subrange(0, 4));
    }
}

/// Migrating again does nothing.
pub proof fn law_migration_is_idempotent<C: FrameCodec>(bytes: Seq<u8>)
    requires
        migrated::<C>(bytes) matches Ok(Some(_)),
    ensures
        migrated::<C>(migrated::<C>(bytes)->Ok_0->Some_0) == Ok::<Option<Seq<u8>>, JournalFault>(
            None,
        ),
{
    let records = legacy_scan::<C>(bytes, 0, 0)->Ok_0;
    let journal = laws::journal_bytes::<C>(records);
    laws::lemma_header_is_sound();
    assert(journal.subrange(0, 8) =~= frames::header_bytes().subrange(0, 8));
    assert(frames::header_bytes().subrange(0, 8) =~= frames::journal_magic());
}

proof fn lemma_legacy_scan_with_tail<C: FrameCodec>(
    front: Seq<u8>,
    records: Seq<<C::Record as View>::V>,
    tail: Seq<u8>,
    index: nat,
)
    requires
        forall|i: int| 0 <= i < records.len() ==> laws::storable::<C>(#[trigger] records[i]),
    ensures
        legacy_scan::<C>(front + legacy_bytes::<C>(records) + tail, front.len(), index)
            == legacy_prepend(
            records,
            legacy_scan::<C>(
                front + legacy_bytes::<C>(records) + tail,
                front.len() + legacy_bytes::<C>(records).len(),
                index + records.len(),
            ),
        ),
    decreases records.len(),
{
    let all = front + legacy_bytes::<C>(records) + tail;
    let end = front.len() + legacy_bytes::<C>(records).len();
    let left = legacy_scan::<C>(all, end, index + records.len());
    if records.len() == 0 {
        if let Ok(rest) = left {
            assert(records + rest =~= rest);
        }
    } else {
        let rest = records.drop_first();
        let record = records[0];
        let payload = C::payload_of(record);
        let frame = legacy_frame_bytes(payload);
        let start = front.len() as int;
        wire::lemma_byte_limits();
        wire::lemma_le_value_of_le_bytes(payload.len(), 4);
        assert(all.subrange(start, start + 4) =~= wire::le_bytes(payload.len(), 4));
        assert(all.subrange(start + 4, start + 4 + payload.len()) =~= payload);
        assert forall|i: int| 0 <= i < rest.len() implies laws::storable::<C>(
            #[trigger] rest[i],
        ) by {
            assert(rest[i] == records[i + 1]);
        }
        lemma_legacy_scan_with_tail::<C>(front + frame, rest, tail, index + 1);
        assert(front + frame + legacy_bytes::<C>(rest) + tail =~= all);
        if let Ok(more) = left {
            assert(seq![record] + (rest + more) =~= records + more);
        }
    }
}

/// A legacy frame that was cut off while it was written is left out: the journal of the
/// frames before it comes of the migration.
pub proof fn law_torn_legacy_frame_is_left_out<C: FrameCodec>(
    records: Seq<<C::Record as View>::V>,
    payload: Seq<u8>,
    written: int,
)
    requires
        records.len() > 0,
        forall|i: int| 0 <= i < records.len() ==> laws::storable::<C>(#[trigger] records[i]),
        payload.len() <= MAX_FRAME_PAYLOAD_BYTES,
        0 <= written < legacy_frame_bytes(payload).len(),
    ensures
        migrated::<C>(legacy_bytes::<C>(records) + legacy_frame_bytes(payload).take(written))
            == Ok::<Option<Seq<u8>>, JournalFault>(Some(laws::journal_bytes::<C>(records))),
{
    let tail = legacy_frame_bytes(payload).take(written);
    let bytes = legacy_bytes::<C>(records) + tail;
    let end = legacy_bytes::<C>(records).len();
    lemma_legacy_scan_with_tail::<C>(Seq::empty(), records, tail, 0);
    assert(Seq::empty() + legacy_bytes::<C>(records) + tail =~= bytes);
    wire::lemma_byte_limits();
    wire::lemma_le_value_of_le_bytes(payload.len(), 4);
    if written >= 4 {
        assert(bytes.subrange(end as int, end as int + 4) =~= wire::le_bytes(payload.len(), 4));
    }
    assert(legacy_scan::<C>(bytes, end, records.len()) == Ok::<
        Seq<<C::Record as View>::V>,
        JournalFault,
    >(Seq::empty()));
    assert(records + Seq::<<C::Record as View>::V>::empty() =~= records);
    let first = C::payload_of(records[0]);
    wire::lemma_le_value_of_le_bytes(first.len(), 4);
    assert(bytes =~= legacy_frame_bytes(first) + legacy_bytes::<C>(records.drop_first()) + tail);
    assert(bytes.subrange(0, 4) =~= wire::le_bytes(first.len(), 4));
    if has_magic(bytes) {
        lemma_magic_is_no_length();
        assert(bytes.subrange(0, 8).subrange(0, 4) =~= bytes.subrange(0, 4));
    }
}

/// A journal that is empty or begins as a current journal does is left alone; any other is
/// migrated or refused.
pub proof fn law_current_journal_is_left_alone<C: FrameCodec>(bytes: Seq<u8>)
    ensures
        migrated::<C>(bytes) == Ok::<Option<Seq<u8>>, JournalFault>(None) <==> bytes.len() == 0 || (
        bytes.len() >= 8 && bytes.subrange(0, 8) == seq![
            0x55u8,
            0x52,
            0x53,
            0x4a,
            0x57,
            0x41,
            0x4c,
            0x00,
        ]),
{
}

} // verus!
