//! Laws of the journal: what was appended is replayed, a torn tail is dropped,
//! damage is refused.

use vstd::prelude::*;
use crate::journal::frames;
use crate::journal::frames::FrameAt;
use crate::journal::{
    CodecFault, FrameCodec, JournalFault, JOURNAL_HEADER_LEN, JOURNAL_VERSION,
    MAX_FRAME_PAYLOAD_BYTES,
};
use crate::wire;

verus! {

/// The frames of `records`, one after the other.
pub open spec fn frame_list<C: FrameCodec>(records: Seq<<C::Record as View>::V>) -> Seq<u8>
    decreases records.len(),
{
    if records.len() == 0 {
        Seq::empty()
    } else {
        frame_list::<C>(records.drop_last()) + frames::frame_bytes(C::payload_of(records.last()))
    }
}

/// The journal of `records`.
pub open spec fn journal_bytes<C: FrameCodec>(records: Seq<<C::Record as View>::V>) -> Seq<u8> {
    frames::header_bytes() + frame_list::<C>(records)
}

/// Whether a record can be framed and read back.
pub open spec fn storable<C: FrameCodec>(record: <C::Record as View>::V) -> bool {
    &&& C::payload_of(record).len() <= MAX_FRAME_PAYLOAD_BYTES
    &&& C::record_of(C::payload_of(record)) == Ok::<<C::Record as View>::V, CodecFault>(record)
}

/// The header that opens a journal is accepted.
pub proof fn lemma_header_is_sound()
    ensures
        frames::header_bytes().len() == 16,
        frames::header_fault(frames::header_bytes()) is None,
{
    let header = frames::header_bytes();
    wire::lemma_byte_limits();
    wire::lemma_le_value_of_le_bytes(JOURNAL_VERSION as nat, 2);
    wire::lemma_le_value_of_le_bytes(JOURNAL_HEADER_LEN as nat, 2);
    assert(header.subrange(0, 8) =~= frames::journal_magic());
    assert(header.subrange(8, 10) =~= wire::le_bytes(JOURNAL_VERSION as nat, 2));
    assert(header.subrange(10, 12) =~= wire::le_bytes(JOURNAL_HEADER_LEN as nat, 2));
    assert(header.subrange(12, 16) =~= seq![0u8, 0, 0, 0]);
}

proof fn lemma_frame_parts(payload: Seq<u8>)
    ensures
        frames::frame_bytes(payload).len() == payload.len() + 8,
        frames::frame_bytes(payload).subrange(0, 4) == wire::le_bytes(payload.len(), 4),
        frames::frame_bytes(payload).subrange(4, 8) == wire::le_bytes(
            frames::crc32(payload) as nat,
            4,
        ),
        frames::frame_bytes(payload).skip(8) == payload,
{
    wire::lemma_le_bytes_len(payload.len(), 4);
    wire::lemma_le_bytes_len(frames::crc32(payload) as nat, 4);
    let frame = frames::frame_bytes(payload);
    assert(frame.subrange(0, 4) =~= wire::le_bytes(payload.len(), 4));
    assert(frame.subrange(4, 8) =~= wire::le_bytes(frames::crc32(payload) as nat, 4));
    assert(frame.skip(8) =~= payload);
}

/// What stands behind a clean part of a journal is found after its records.
proof fn lemma_scan_splits<C: FrameCodec>(
    front: Seq<u8>,
    back: Seq<u8>,
    at: nat,
    index: nat,
    records: Seq<<C::Record as View>::V>,
)
    requires
        at <= front.len(),
        frames::scan::<C>(front, at, index) == Ok::<
            (Seq<<C::Record as View>::V>, nat),
            JournalFault,
        >((records, front.len())),
    ensures
        frames::scan::<C>(front + back, at, index) == frames::prepend(
            records,
            frames::scan::<C>(front + back, front.len(), index + records.len()),
        ),
    decreases front.len() - at,
{
    let all = front + back;
    if at == front.len() {
        assert(records =~= Seq::empty());
        match frames::scan::<C>(all, front.len(), index) {
            Ok((rest, _)) => {
                assert(records + rest =~= rest);
            },
            Err(_) => {},
        }
    } else {
        match frames::frame_at::<C>(front, at, index) {
            FrameAt::Record { record, next } => {
                let start = at as int;
                assert(all.subrange(start, start + 4) =~= front.subrange(start, start + 4));
                assert(all.subrange(start + 4, start + 8) =~= front.subrange(
                    start + 4,
                    start + 8,
                ));
                let len = wire::le_value(front.subrange(start, start + 4));
                assert(all.subrange(start + 8, start + 8 + len) =~= front.subrange(
                    start + 8,
                    start + 8 + len,
                ));
                assert(frames::frame_at::<C>(all, at, index) == frames::frame_at::<C>(
                    front,
                    at,
                    index,
                ));
                let rest = frames::scan::<C>(front, next, index + 1)->Ok_0.0;
                assert(records == seq![record] + rest);
                lemma_scan_splits::<C>(front, back, next, index + 1, rest);
                match frames::scan::<C>(all, front.len(), index + records.len()) {
                    Ok((more, _)) => {
                        assert(seq![record] + (rest + more) =~= records + more);
                    },
                    Err(_) => {},
                }
            },
            FrameAt::Torn => {},
            FrameAt::Faulty(_) => {},
        }
    }
}

/// Where the scan of a journal stops, the journal up to there scans clean.
proof fn lemma_scan_valid_part<C: FrameCodec>(bytes: Seq<u8>, at: nat, index: nat, end: nat)
    requires
        at <= bytes.len(),
        frames::scan::<C>(bytes, at, index) matches Ok((_, stop)) && stop == end,
    ensures
        at <= end <= bytes.len(),
        frames::scan::<C>(bytes.take(end as int), at, index) == frames::scan::<C>(
            bytes,
            at,
            index,
        ),
    decreases bytes.len() - at,
{
    if at < bytes.len() {
        match frames::frame_at::<C>(bytes, at, index) {
            FrameAt::Record { record, next } => {
                lemma_scan_valid_part::<C>(bytes, next, index + 1, end);
                let part = bytes.take(end as int);
                let start = at as int;
                let len = wire::le_value(bytes.subrange(start, start + 4));
                assert(part.subrange(start, start + 4) =~= bytes.subrange(start, start + 4));
                assert(part.subrange(start + 4, start + 8) =~= bytes.subrange(
                    start + 4,
                    start + 8,
                ));
                assert(part.subrange(start + 8, start + 8 + len) =~= bytes.subrange(
                    start + 8,
                    start + 8 + len,
                ));
            },
            FrameAt::Torn => {
                assert(bytes.take(end as int).len() == at);
            },
            FrameAt::Faulty(_) => {},
        }
    } else {
        assert(bytes.take(end as int) =~= bytes);
    }
}

/// Whether a journal is sound up to its end.
pub open spec fn is_clean<C: FrameCodec>(
    journal: Seq<u8>,
    records: Seq<<C::Record as View>::V>,
) -> bool {
    &&& journal.len() >= JOURNAL_HEADER_LEN
    &&& frames::header_fault(journal.subrange(0, 16)) is None
    &&& frames::scan::<C>(journal, 16, 0) == Ok::<(Seq<<C::Record as View>::V>, nat), JournalFault>(
        (records, journal.len()),
    )
}

proof fn lemma_clean_tail<C: FrameCodec>(
    journal: Seq<u8>,
    records: Seq<<C::Record as View>::V>,
    tail: Seq<u8>,
    short: JournalFault,
)
    requires
        is_clean::<C>(journal, records),
    ensures
        frames::journal_scan::<C>(journal + tail, short) == frames::prepend(
            records,
            frames::scan::<C>(journal + tail, journal.len(), records.len()),
        ),
        frames::header_fault((journal + tail).subrange(0, 16)) is None,
{
    assert((journal + tail).subrange(0, 16) =~= journal.subrange(0, 16));
    lemma_scan_splits::<C>(journal, tail, 16, 0, records);
}

proof fn lemma_whole_frame<C: FrameCodec>(
    front: Seq<u8>,
    record: <C::Record as View>::V,
    index: nat,
)
    requires
        storable::<C>(record),
    ensures
        ({
            let all = front + frames::frame_bytes(C::payload_of(record));
            frames::scan::<C>(all, front.len(), index) == Ok::<
                (Seq<<C::Record as View>::V>, nat),
                JournalFault,
            >((seq![record], all.len()))
        }),
{
    let payload = C::payload_of(record);
    let frame = frames::frame_bytes(payload);
    let all = front + frame;
    let start = front.len() as int;
    lemma_frame_parts(payload);
    wire::lemma_byte_limits();
    wire::lemma_le_value_of_le_bytes(payload.len(), 4);
    wire::lemma_le_value_of_le_bytes(frames::crc32(payload) as nat, 4);
    assert(all.subrange(start, start + 4) =~= frame.subrange(0, 4));
    assert(all.subrange(start + 4, start + 8) =~= frame.subrange(4, 8));
    assert(all.subrange(start + 8, start + 8 + payload.len()) =~= frame.skip(8));
    assert(frames::scan::<C>(all, all.len(), index + 1) == Ok::<
        (Seq<<C::Record as View>::V>, nat),
        JournalFault,
    >((Seq::empty(), all.len())));
    assert(seq![record] + Seq::<<C::Record as View>::V>::empty() =~= seq![record]);
}

/// Appending a record to a clean journal, or to an empty one, gives a clean
/// journal that has the record behind all others.
pub proof fn law_append_extends<C: FrameCodec>(
    journal: Seq<u8>,
    records: Seq<<C::Record as View>::V>,
    record: <C::Record as View>::V,
)
    requires
        is_clean::<C>(journal, records) || (journal.len() == 0 && records.len() == 0),
        storable::<C>(record),
    ensures
        frames::append_fault(journal) is None,
        is_clean::<C>(
            frames::appended(journal, C::payload_of(record)),
            records.push(record),
        ),
{
    let frame = frames::frame_bytes(C::payload_of(record));
    if journal.len() == 0 {
        let header = frames::header_bytes();
        lemma_header_is_sound();
        lemma_whole_frame::<C>(header, record, 0);
        assert((header + frame).subrange(0, 16) =~= header);
        assert(seq![record] =~= records.push(record));
    } else {
        lemma_clean_tail::<C>(journal, records, frame, JournalFault::IncompleteHeader);
        lemma_whole_frame::<C>(journal, record, records.len());
        assert(records + seq![record] =~= records.push(record));
    }
}

/// Replaying a journal gives the records that were appended, in order, and
/// leaves the journal whole.
pub proof fn law_replay_gives_appended_records<C: FrameCodec>(
    records: Seq<<C::Record as View>::V>,
    short: JournalFault,
)
    requires
        forall|i: int| 0 <= i < records.len() ==> storable::<C>(#[trigger] records[i]),
    ensures
        is_clean::<C>(journal_bytes::<C>(records), records),
        frames::journal_scan::<C>(journal_bytes::<C>(records), short) == Ok::<
            (Seq<<C::Record as View>::V>, nat),
            JournalFault,
        >((records, journal_bytes::<C>(records).len())),
    decreases records.len(),
{
    lemma_header_is_sound();
    let journal = journal_bytes::<C>(records);
    if records.len() == 0 {
        assert(journal =~= frames::header_bytes());
        assert(journal.subrange(0, 16) =~= journal);
        assert(records =~= Seq::empty());
    } else {
        let front = records.drop_last();
        assert forall|i: int| 0 <= i < front.len() implies storable::<C>(#[trigger] front[i]) by {
            assert(front[i] == records[i]);
        }
        law_replay_gives_appended_records::<C>(front, short);
        law_append_extends::<C>(journal_bytes::<C>(front), front, records.last());
        assert(journal =~= journal_bytes::<C>(front) + frames::frame_bytes(
            C::payload_of(records.last()),
        ));
        assert(front.push(records.last()) =~= records);
    }
}

/// A frame that was cut off while it was written is ignored: replay gives the
/// records before it and ends the journal where it began.
pub proof fn law_torn_frame_is_dropped<C: FrameCodec>(
    journal: Seq<u8>,
    records: Seq<<C::Record as View>::V>,
    payload: Seq<u8>,
    written: int,
    short: JournalFault,
)
    requires
        is_clean::<C>(journal, records),
        payload.len() <= MAX_FRAME_PAYLOAD_BYTES,
        0 <= written < frames::frame_bytes(payload).len(),
    ensures
        frames::journal_scan::<C>(journal + frames::frame_bytes(payload).take(written), short)
            == Ok::<(Seq<<C::Record as View>::V>, nat), JournalFault>((records, journal.len())),
{
    let frame = frames::frame_bytes(payload);
    let part = frame.take(written);
    let all = journal + part;
    let start = journal.len() as int;
    lemma_frame_parts(payload);
    wire::lemma_byte_limits();
    wire::lemma_le_value_of_le_bytes(payload.len(), 4);
    lemma_clean_tail::<C>(journal, records, part, short);
    if written >= 8 {
        assert(all.subrange(start, start + 4) =~= frame.subrange(0, 4));
    }
    assert(records + Seq::<<C::Record as View>::V>::empty() =~= records);
}

/// Replaying a journal again after its torn tail was cut gives the same records
/// and cuts nothing more.
pub proof fn law_replay_is_idempotent<C: FrameCodec>(journal: Seq<u8>, short: JournalFault)
    requires
        frames::journal_scan::<C>(journal, short) is Ok,
    ensures
        ({
            let (records, end) = frames::journal_scan::<C>(journal, short)->Ok_0;
            &&& end <= journal.len()
            &&& frames::journal_scan::<C>(journal.take(end as int), short)
                == frames::journal_scan::<C>(journal, short)
        }),
{
    if journal.len() > 0 {
        let (records, end) = frames::journal_scan::<C>(journal, short)->Ok_0;
        lemma_scan_valid_part::<C>(journal, 16, 0, end);
        assert(journal.take(end as int).subrange(0, 16) =~= journal.subrange(0, 16));
    } else {
        assert(journal.take(0) =~= journal);
    }
}

/// A frame whose payload does not match its checksum is refused, and the error
/// gives its place.
pub proof fn law_changed_payload_is_refused<C: FrameCodec>(
    journal: Seq<u8>,
    records: Seq<<C::Record as View>::V>,
    payload: Seq<u8>,
    checksum: u32,
    rest: Seq<u8>,
    short: JournalFault,
)
    requires
        is_clean::<C>(journal, records),
        payload.len() <= MAX_FRAME_PAYLOAD_BYTES,
        frames::crc32(payload) != checksum,
    ensures
        frames::journal_scan::<C>(
            journal + (wire::le_bytes(payload.len(), 4) + wire::le_bytes(checksum as nat, 4)
                + payload + rest),
            short,
        ) == Err::<(Seq<<C::Record as View>::V>, nat), JournalFault>(
            JournalFault::ChecksumMismatch {
                frame: (records.len() + 1) as u64,
                expected: checksum,
                actual: frames::crc32(payload),
            },
        ),
{
    let tail = wire::le_bytes(payload.len(), 4) + wire::le_bytes(checksum as nat, 4) + payload
        + rest;
    let all = journal + tail;
    let start = journal.len() as int;
    wire::lemma_byte_limits();
    wire::lemma_le_value_of_le_bytes(payload.len(), 4);
    wire::lemma_le_value_of_le_bytes(checksum as nat, 4);
    lemma_clean_tail::<C>(journal, records, tail, short);
    assert(all.subrange(start, start + 4) =~= wire::le_bytes(payload.len(), 4));
    assert(all.subrange(start + 4, start + 8) =~= wire::le_bytes(checksum as nat, 4));
    assert(all.subrange(start + 8, start + 8 + payload.len()) =~= payload);
}

proof fn lemma_bits_tell_apart(a: u32, b: u32, bits: nat)
    requires
        frames::crc32_bits(a, bits) == frames::crc32_bits(b, bits),
    ensures
        a == b,
    decreases bits,
{
    if bits > 0 {
        let x = frames::crc32_bits(a, (bits - 1) as nat);
        let y = frames::crc32_bits(b, (bits - 1) as nat);
        assert(x == y) by (bit_vector)
            requires
                (if x & 1 == 1 {
                    (x >> 1) ^ 0xedb8_8320
                } else {
                    x >> 1
                }) == (if y & 1 == 1 {
                    (y >> 1) ^ 0xedb8_8320
                } else {
                    y >> 1
                }),
        ;
        lemma_bits_tell_apart(a, b, (bits - 1) as nat);
    }
}

proof fn lemma_state_shows_a_changed_byte(bytes: Seq<u8>, at: int, byte: u8)
    requires
        0 <= at < bytes.len(),
        byte != bytes[at],
    ensures
        frames::crc32_state(bytes.update(at, byte)) != frames::crc32_state(bytes),
    decreases bytes.len(),
{
    let changed = bytes.update(at, byte);
    let front = bytes.drop_last();
    if at < bytes.len() - 1 {
        lemma_state_shows_a_changed_byte(front, at, byte);
        assert(changed.drop_last() =~= front.update(at, byte));
    } else {
        assert(changed.drop_last() =~= front);
    }
    if frames::crc32_state(changed) == frames::crc32_state(bytes) {
        let first = frames::crc32_state(changed.drop_last());
        let second = frames::crc32_state(front);
        let a = changed.last();
        let b = bytes.last();
        lemma_bits_tell_apart(first ^ (a as u32), second ^ (b as u32), 8);
        assert(first ^ (a as u32) == second ^ (b as u32) && a == b ==> first == second)
            by (bit_vector);
        assert(first ^ (a as u32) == second ^ (b as u32) && first == second ==> a == b)
            by (bit_vector);
    }
}

/// One changed byte changes the checksum.
pub proof fn law_checksum_shows_a_changed_byte(bytes: Seq<u8>, at: int, byte: u8)
    requires
        0 <= at < bytes.len(),
        byte != bytes[at],
    ensures
        frames::crc32(bytes.update(at, byte)) != frames::crc32(bytes),
{
    lemma_state_shows_a_changed_byte(bytes, at, byte);
    let a = frames::crc32_state(bytes.update(at, byte));
    let b = frames::crc32_state(bytes);
    assert(a ^ 0xffff_ffff == b ^ 0xffff_ffff ==> a == b) by (bit_vector);
}

/// A frame in whose payload one byte was changed is refused, whatever follows, and the
/// error gives its place.
pub proof fn law_changed_byte_is_refused<C: FrameCodec>(
    journal: Seq<u8>,
    records: Seq<<C::Record as View>::V>,
    payload: Seq<u8>,
    at: int,
    byte: u8,
    rest: Seq<u8>,
    short: JournalFault,
)
    requires
        is_clean::<C>(journal, records),
        payload.len() <= MAX_FRAME_PAYLOAD_BYTES,
        0 <= at < payload.len(),
        byte != payload[at],
    ensures
        frames::journal_scan::<C>(
            journal + (frames::frame_bytes(payload).update(8 + at, byte) + rest),
            short,
        ) == Err::<(Seq<<C::Record as View>::V>, nat), JournalFault>(
            JournalFault::ChecksumMismatch {
                frame: (records.len() + 1) as u64,
                expected: frames::crc32(payload),
                actual: frames::crc32(payload.update(at, byte)),
            },
        ),
{
    let changed = payload.update(at, byte);
    law_checksum_shows_a_changed_byte(payload, at, byte);
    law_changed_payload_is_refused::<C>(
        journal,
        records,
        changed,
        frames::crc32(payload),
        rest,
        short,
    );
    wire::lemma_le_bytes_len(payload.len(), 4);
    wire::lemma_le_bytes_len(frames::crc32(payload) as nat, 4);
    assert(frames::frame_bytes(payload).update(8 + at, byte) =~= wire::le_bytes(changed.len(), 4)
        + wire::le_bytes(frames::crc32(payload) as nat, 4) + changed);
}

/// A frame that declares more bytes than the limit is refused whatever follows.
pub proof fn law_oversized_frame_is_refused<C: FrameCodec>(
    journal: Seq<u8>,
    records: Seq<<C::Record as View>::V>,
    len: u32,
    rest: Seq<u8>,
    short: JournalFault,
)
    requires
        is_clean::<C>(journal, records),
        len > MAX_FRAME_PAYLOAD_BYTES,
        rest.len() >= 4,
    ensures
        frames::journal_scan::<C>(journal + (wire::le_bytes(len as nat, 4) + rest), short) == Err::<
            (Seq<<C::Record as View>::V>, nat),
            JournalFault,
        >(JournalFault::FrameTooLarge { frame: (records.len() + 1) as u64, len: len as u64 }),
{
    let tail = wire::le_bytes(len as nat, 4) + rest;
    let all = journal + tail;
    let start = journal.len() as int;
    wire::lemma_byte_limits();
    wire::lemma_le_value_of_le_bytes(len as nat, 4);
    lemma_clean_tail::<C>(journal, records, tail, short);
    assert(all.subrange(start, start + 4) =~= wire::le_bytes(len as nat, 4));
}

/// A frame is the length of its payload in four bytes, the checksum of the payload in
/// four, each least significant byte first, and the payload.
pub proof fn law_frame_layout(payload: Seq<u8>)
    requires
        payload.len() <= u32::MAX,
    ensures
        ({
            let frame = frames::frame_bytes(payload);
            &&& frame.len() == 8 + payload.len()
            &&& payload.len() == frame[0] + 256 * (frame[1] + 256 * (frame[2] + 256 * frame[3]))
            &&& frames::crc32(payload) == frame[4] + 256 * (frame[5] + 256 * (frame[6] + 256
                * frame[7]))
            &&& frame.subrange(8, frame.len() as int) == payload
        }),
{
    let frame = frames::frame_bytes(payload);
    lemma_frame_parts(payload);
    wire::lemma_byte_limits();
    wire::lemma_le_value_of_le_bytes(payload.len(), 4);
    wire::lemma_le_value_of_le_bytes(frames::crc32(payload) as nat, 4);
    lemma_four_bytes(frame.subrange(0, 4));
    lemma_four_bytes(frame.subrange(4, 8));
    assert(frame.subrange(8, frame.len() as int) =~= frame.skip(8));
}

proof fn lemma_four_bytes(bytes: Seq<u8>)
    requires
        bytes.len() == 4,
    ensures
        wire::le_value(bytes) == bytes[0] + 256 * (bytes[1] + 256 * (bytes[2] + 256 * bytes[3])),
{
    reveal_with_fuel(wire::le_value, 5);
    let a = bytes.drop_first();
    let b = a.drop_first();
    let c = b.drop_first();
    assert(a[0] == bytes[1]);
    assert(b[0] == bytes[2]);
    assert(c[0] == bytes[3]);
}

proof fn lemma_two_bytes(bytes: Seq<u8>)
    requires
        bytes.len() == 2,
    ensures
        wire::le_value(bytes) == bytes[0] + 256 * bytes[1],
{
    reveal_with_fuel(wire::le_value, 3);
    assert(bytes.drop_first()[0] == bytes[1]);
}

/// A header is sound exactly where it is the eight bytes of the magic, the version, the
/// length of the header, and four zeros: no other sixteen bytes open a journal.
pub proof fn law_one_header_is_sound(header: Seq<u8>)
    requires
        header.len() == 16,
    ensures
        frames::header_fault(header) is None <==> header == frames::header_bytes(),
        frames::header_fault(header) is None <==> {
            &&& header.subrange(0, 8) == seq![0x55u8, 0x52, 0x53, 0x4a, 0x57, 0x41, 0x4c, 0x00]
            &&& header[8] + 256 * header[9] == JOURNAL_VERSION
            &&& header[10] + 256 * header[11] == JOURNAL_HEADER_LEN
            &&& header[12] == 0 && header[13] == 0 && header[14] == 0 && header[15] == 0
        },
{
    lemma_header_is_sound();
    lemma_two_bytes(header.subrange(8, 10));
    lemma_two_bytes(header.subrange(10, 12));
    if header.subrange(12, 16) == seq![0u8, 0, 0, 0] {
        assert(header.subrange(12, 16)[0] == header[12]);
        assert(header.subrange(12, 16)[1] == header[13]);
        assert(header.subrange(12, 16)[2] == header[14]);
        assert(header.subrange(12, 16)[3] == header[15]);
    }
    if header[12] == 0 && header[13] == 0 && header[14] == 0 && header[15] == 0 {
        assert(header.subrange(12, 16) =~= seq![0u8, 0, 0, 0]);
    }
    if frames::header_fault(header) is None {
        wire::lemma_le_bytes_of_le_value(header.subrange(8, 10));
        wire::lemma_le_bytes_of_le_value(header.subrange(10, 12));
        assert(header =~= header.subrange(0, 8) + header.subrange(8, 10) + header.subrange(10, 12)
            + header.subrange(12, 16));
    }
}

/// A record may be appended exactly where the journal is empty or begins with a sound
/// header. What was there before stays, and what is added behind it, or behind the header
/// of a new journal, is one frame.
pub proof fn law_append_keeps_what_is_there(journal: Seq<u8>, payload: Seq<u8>)
    ensures
        frames::append_fault(journal) is None <==> journal.len() == 0 || (journal.len() >= 16
            && journal.subrange(0, 16) == frames::header_bytes()),
        journal.len() > 0 ==> {
            let after = frames::appended(journal, payload);
            &&& after.subrange(0, journal.len() as int) == journal
            &&& after.len() == journal.len() + 8 + payload.len()
            &&& after.subrange(after.len() - payload.len(), after.len() as int) == payload
        },
        journal.len() == 0 ==> {
            let after = frames::appended(journal, payload);
            &&& after.subrange(0, 16) == frames::header_bytes()
            &&& after.len() == 16 + 8 + payload.len()
            &&& after.subrange(24, after.len() as int) == payload
        },
{
    let frame = frames::frame_bytes(payload);
    lemma_frame_parts(payload);
    lemma_header_is_sound();
    if journal.len() >= 16 {
        law_one_header_is_sound(journal.subrange(0, 16));
    }
    let after = frames::appended(journal, payload);
    assert(frame.skip(8) =~= frame.subrange(8, frame.len() as int));
    if journal.len() > 0 {
        assert(after.subrange(0, journal.len() as int) =~= journal);
        assert(after.subrange(after.len() - payload.len(), after.len() as int) =~= frame.subrange(
            8,
            frame.len() as int,
        ));
    } else {
        assert(after.subrange(0, 16) =~= frames::header_bytes());
        assert(after.subrange(24, after.len() as int) =~= frame.subrange(8, frame.len() as int));
    }
}

} // verus!
