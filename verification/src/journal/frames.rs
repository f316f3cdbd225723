//! Reading and writing the frames of a journal.

use vstd::prelude::*;
use crate::journal::{
    CodecFault, FrameCodec, JournalError, JournalFault, FRAME_HEADER_LEN, JOURNAL_HEADER_LEN,
    JOURNAL_VERSION, MAX_FRAME_PAYLOAD_BYTES,
};
use crate::wire;
use crate::wire::{get_le, put_slice, put_u16, put_u32, put_u8};

verus! {

/// One bit further in a CRC-32 (IEEE), whose polynomial is 0xedb88320 with its lowest
/// bit first.
pub open spec fn crc32_bit(state: u32) -> u32 {
    if state & 1 == 1 {
        (state >> 1) ^ 0xedb8_8320
    } else {
        state >> 1
    }
}

/// `bits` bits further.
pub open spec fn crc32_bits(state: u32, bits: nat) -> u32
    decreases bits,
{
    if bits == 0 {
        state
    } else {
        crc32_bit(crc32_bits(state, (bits - 1) as nat))
    }
}

/// The state of a CRC-32 behind `bytes`.
pub open spec fn crc32_state(bytes: Seq<u8>) -> u32
    decreases bytes.len(),
{
    if bytes.len() == 0 {
        0xffff_ffff
    } else {
        crc32_bits(crc32_state(bytes.drop_last()) ^ (bytes.last() as u32), 8)
    }
}

/// The CRC-32 (IEEE) checksum of `bytes`.
pub open spec fn crc32(bytes: Seq<u8>) -> u32 {
    crc32_state(bytes) ^ 0xffff_ffff
}

/// `crc32fast::hash`: the CRC-32 (IEEE) checksum of the bytes.
#[verifier::external_body]
fn crc32_hash(bytes: &[u8]) -> (r: u32)
    ensures
        r == crc32(bytes@),
{
    crc32fast::hash(bytes)
}

// ---------------------------------------------------------------------------
// Header
// ---------------------------------------------------------------------------

/// The eight bytes `URSJWAL` and zero that open every journal.
pub open spec fn journal_magic() -> Seq<u8> {
    seq![0x55u8, 0x52, 0x53, 0x4a, 0x57, 0x41, 0x4c, 0x00]
}

/// The header of a journal.
pub open spec fn header_bytes() -> Seq<u8> {
    journal_magic() + wire::le_bytes(JOURNAL_VERSION as nat, 2) + wire::le_bytes(
        JOURNAL_HEADER_LEN as nat,
        2,
    ) + seq![0u8, 0, 0, 0]
}

/// What is wrong with the sixteen bytes of a header.
pub open spec fn header_fault(header: Seq<u8>) -> Option<JournalFault> {
    let version = wire::le_value(header.subrange(8, 10));
    let len = wire::le_value(header.subrange(10, 12));
    if header.subrange(0, 8) != journal_magic() {
        Some(JournalFault::MissingMagic)
    } else if version != JOURNAL_VERSION {
        Some(JournalFault::UnsupportedVersion { version: version as u16 })
    } else if len != JOURNAL_HEADER_LEN {
        Some(JournalFault::UnsupportedHeaderLen { header_len: len as u16 })
    } else if header.subrange(12, 16) != seq![0u8, 0, 0, 0] {
        Some(JournalFault::ReservedBytes)
    } else {
        None
    }
}

/// The header of a journal.
pub fn journal_header() -> (r: Vec<u8>)
    ensures
        r@ == header_bytes(),
        r@.len() == 16,
{
    proof {
        wire::lemma_le_bytes_len(JOURNAL_VERSION as nat, 2);
        wire::lemma_le_bytes_len(JOURNAL_HEADER_LEN as nat, 2);
    }
    let mut header: Vec<u8> = Vec::new();
    put_u8(&mut header, 0x55);
    put_u8(&mut header, 0x52);
    put_u8(&mut header, 0x53);
    put_u8(&mut header, 0x4a);
    put_u8(&mut header, 0x57);
    put_u8(&mut header, 0x41);
    put_u8(&mut header, 0x4c);
    put_u8(&mut header, 0x00);
    assert(header@ =~= journal_magic());
    put_u16(&mut header, JOURNAL_VERSION);
    put_u16(&mut header, JOURNAL_HEADER_LEN as u16);
    put_u8(&mut header, 0);
    put_u8(&mut header, 0);
    put_u8(&mut header, 0);
    put_u8(&mut header, 0);
    assert(header@ =~= header_bytes());
    header
}

/// Whether eight bytes are the magic of a journal.
pub fn is_journal_magic(bytes: &[u8]) -> (r: bool)
    requires
        bytes@.len() == 8,
    ensures
        r == (bytes@ == journal_magic()),
{
    let r = bytes[0] == 0x55 && bytes[1] == 0x52 && bytes[2] == 0x53 && bytes[3] == 0x4a
        && bytes[4] == 0x57 && bytes[5] == 0x41 && bytes[6] == 0x4c && bytes[7] == 0x00;
    proof {
        let magic = journal_magic();
        if r {
            assert(bytes@ =~= magic);
        } else {
            assert(magic[0] == 0x55 && magic[1] == 0x52 && magic[2] == 0x53 && magic[3] == 0x4a
                && magic[4] == 0x57 && magic[5] == 0x41 && magic[6] == 0x4c && magic[7] == 0x00);
        }
    }
    r
}

/// Checks the sixteen bytes of a header.
pub fn validate_header_bytes(header: &[u8]) -> (r: Result<(), JournalError>)
    requires
        header@.len() == 16,
    ensures
        match header_fault(header@) {
            None => r is Ok,
            Some(fault) => r is Err && r->Err_0@ == fault,
        },
{
    proof {
        wire::lemma_le_bytes_of_le_value(header@.subrange(8, 10));
        wire::lemma_le_bytes_of_le_value(header@.subrange(10, 12));
        wire::lemma_byte_limits();
    }
    if !is_journal_magic(vstd::slice::slice_subrange(header, 0, 8)) {
        return Err(JournalError::MissingMagic);
    }
    let version: u16 = get_le(vstd::slice::slice_subrange(header, 8, 10)) as u16;
    if version != JOURNAL_VERSION {
        return Err(JournalError::UnsupportedVersion { version });
    }
    let len: u16 = get_le(vstd::slice::slice_subrange(header, 10, 12)) as u16;
    if len as usize != JOURNAL_HEADER_LEN {
        return Err(JournalError::UnsupportedHeaderLen { header_len: len });
    }
    if header[12] != 0 || header[13] != 0 || header[14] != 0 || header[15] != 0 {
        proof {
            let zeros = seq![0u8, 0, 0, 0];
            let reserved = header@.subrange(12, 16);
            assert(zeros[0] == 0 && zeros[1] == 0 && zeros[2] == 0 && zeros[3] == 0);
            assert(reserved[0] == header@[12] && reserved[1] == header@[13] && reserved[2]
                == header@[14] && reserved[3] == header@[15]);
        }
        return Err(JournalError::ReservedBytes);
    }
    assert(header@.subrange(12, 16) =~= seq![0u8, 0, 0, 0]);
    Ok(())
}


// ---------------------------------------------------------------------------
// Frames
// ---------------------------------------------------------------------------

/// The frame of a payload.
pub open spec fn frame_bytes(payload: Seq<u8>) -> Seq<u8> {
    wire::le_bytes(payload.len(), 4) + wire::le_bytes(crc32(payload) as nat, 4) + payload
}

/// What stands at one place of a journal.
pub enum FrameAt<V> {
    Torn,
    Faulty(JournalFault),
    Record { record: V, next: nat },
}

/// What the payload of the frame number `frame` stands for.
pub open spec fn payload_record<C: FrameCodec>(payload: Seq<u8>, checksum: u32, frame: u64) -> Result<
    <C::Record as View>::V,
    JournalFault,
> {
    if crc32(payload) != checksum {
        Err(JournalFault::ChecksumMismatch { frame, expected: checksum, actual: crc32(payload) })
    } else {
        match C::record_of(payload) {
            Ok(record) => Ok(record),
            Err(fault) => Err(JournalFault::DecodeFailed { frame, fault }),
        }
    }
}

/// What stands at `at`, behind `index` frames.
pub open spec fn frame_at<C: FrameCodec>(bytes: Seq<u8>, at: nat, index: nat) -> FrameAt<
    <C::Record as View>::V,
> {
    let frame = (index + 1) as u64;
    let start = at as int;
    let len = wire::le_value(bytes.subrange(start, start + 4));
    let checksum = wire::le_value(bytes.subrange(start + 4, start + 8)) as u32;
    let payload = bytes.subrange(start + 8, start + 8 + len);
    if bytes.len() - at < FRAME_HEADER_LEN {
        FrameAt::Torn
    } else if len > MAX_FRAME_PAYLOAD_BYTES {
        FrameAt::Faulty(JournalFault::FrameTooLarge { frame, len: len as u64 })
    } else if bytes.len() - at - FRAME_HEADER_LEN < len {
        FrameAt::Torn
    } else {
        match payload_record::<C>(payload, checksum, frame) {
            Ok(record) => FrameAt::Record { record, next: at + 8 + len },
            Err(fault) => FrameAt::Faulty(fault),
        }
    }
}

/// The records from `at` on, and where the last whole frame ends.
pub open spec fn scan<C: FrameCodec>(bytes: Seq<u8>, at: nat, index: nat) -> Result<
    (Seq<<C::Record as View>::V>, nat),
    JournalFault,
>
    decreases bytes.len() - at,
{
    if at >= bytes.len() {
        Ok((Seq::empty(), at))
    } else {
        match frame_at::<C>(bytes, at, index) {
            FrameAt::Torn => Ok((Seq::empty(), at)),
            FrameAt::Faulty(fault) => Err(fault),
            FrameAt::Record { record, next } => if next <= at {
                Ok((Seq::empty(), at))
            } else {
                match scan::<C>(bytes, next, index + 1) {
                    Ok((rest, end)) => Ok((seq![record] + rest, end)),
                    Err(fault) => Err(fault),
                }
            },
        }
    }
}

/// The records of a journal, and the length of its valid part. `short` is what
/// is wrong where not even the header is complete.
pub open spec fn journal_scan<C: FrameCodec>(bytes: Seq<u8>, short: JournalFault) -> Result<
    (Seq<<C::Record as View>::V>, nat),
    JournalFault,
> {
    if bytes.len() == 0 {
        Ok((Seq::empty(), 0))
    } else if bytes.len() < JOURNAL_HEADER_LEN {
        Err(short)
    } else {
        match header_fault(bytes.subrange(0, 16)) {
            Some(fault) => Err(fault),
            None => scan::<C>(bytes, 16, 0),
        }
    }
}

/// What a list of records says.
pub open spec fn record_views<R: View>(records: Seq<R>) -> Seq<R::V> {
    records.map_values(|record: R| record@)
}

/// Records put in front of what a scan gave.
pub open spec fn prepend<V>(
    records: Seq<V>,
    scanned: Result<(Seq<V>, nat), JournalFault>,
) -> Result<(Seq<V>, nat), JournalFault> {
    match scanned {
        Ok((rest, end)) => Ok((records + rest, end)),
        Err(fault) => Err(fault),
    }
}

/// Walks over the frames of a journal whose header was checked.
#[derive(Debug)]
pub struct FrameScanner {
    file_len: u64,
    valid_len: u64,
    frames: u64,
}

/// What to do about the frame whose header was read.
#[derive(Debug, Clone, Copy, PartialEq, Eq, Structural)]
pub enum FramePlan {
    /// The frame is cut off: the journal ends before it.
    Torn,
    /// Read this many payload bytes and hold them against the checksum.
    Payload { len: u64, checksum: u32 },
}

impl FrameScanner {
    pub closed spec fn file_len(&self) -> nat {
        self.file_len as nat
    }

    /// The length up to which frames are whole.
    pub closed spec fn valid_len(&self) -> nat {
        self.valid_len as nat
    }

    /// How many frames were read.
    pub closed spec fn frames(&self) -> nat {
        self.frames as nat
    }

    pub open spec fn wf(&self) -> bool {
        &&& 16 <= self.valid_len() <= self.file_len() <= u64::MAX
        &&& self.frames() * 8 <= self.valid_len() - 16
    }

    pub fn new(file_len: u64) -> (r: Self)
        requires
            file_len >= JOURNAL_HEADER_LEN,
        ensures
            r.wf(),
            r.file_len() == file_len,
            r.valid_len() == 16,
            r.frames() == 0,
    {
        FrameScanner { file_len, valid_len: JOURNAL_HEADER_LEN as u64, frames: 0 }
    }

    /// Whether a whole frame header is left to read.
    pub fn has_frame_header(&self) -> (r: bool)
        requires
            self.wf(),
        ensures
            r == (self.file_len() - self.valid_len() >= FRAME_HEADER_LEN),
    {
        self.file_len - self.valid_len >= FRAME_HEADER_LEN as u64
    }

    /// The offset up to which frames are whole.
    pub fn offset(&self) -> (r: u64)
        ensures
            r == self.valid_len(),
    {
        self.valid_len
    }

    /// The length to which a journal with a torn tail is cut.
    pub fn torn_at(&self) -> (r: Option<u64>)
        requires
            self.wf(),
        ensures
            match r {
                Some(len) => len == self.valid_len() && self.valid_len() < self.file_len(),
                None => self.valid_len() == self.file_len(),
            },
    {
        if self.valid_len < self.file_len {
            Some(self.valid_len)
        } else {
            None
        }
    }

    /// What the header of the next frame asks for.
    pub fn frame_header(&self, header: &[u8]) -> (r: Result<FramePlan, JournalError>)
        requires
            self.wf(),
            header@.len() == 8,
            self.file_len() - self.valid_len() >= FRAME_HEADER_LEN,
        ensures
            ({
                let len = wire::le_value(header@.subrange(0, 4));
                let checksum = wire::le_value(header@.subrange(4, 8));
                if len > MAX_FRAME_PAYLOAD_BYTES {
                    r is Err && r->Err_0@ == (JournalFault::FrameTooLarge {
                        frame: (self.frames() + 1) as u64,
                        len: len as u64,
                    })
                } else if self.file_len() - self.valid_len() - 8 < len {
                    r == Ok::<FramePlan, JournalError>(FramePlan::Torn)
                } else {
                    r == Ok::<FramePlan, JournalError>(
                        FramePlan::Payload { len: len as u64, checksum: checksum as u32 },
                    )
                }
            }),
            r matches Ok(FramePlan::Payload { len, .. }) ==> len <= MAX_FRAME_PAYLOAD_BYTES
                && self.valid_len() + 8 + len <= self.file_len(),
    {
        proof {
            wire::lemma_le_bytes_of_le_value(header@.subrange(0, 4));
            wire::lemma_le_bytes_of_le_value(header@.subrange(4, 8));
            wire::lemma_byte_limits();
        }
        let len: u64 = get_le(vstd::slice::slice_subrange(header, 0, 4));
        let checksum: u32 = get_le(vstd::slice::slice_subrange(header, 4, 8)) as u32;
        if len > MAX_FRAME_PAYLOAD_BYTES as u64 {
            return Err(JournalError::FrameTooLarge { frame: self.frames + 1, len });
        }
        if self.file_len - self.valid_len - (FRAME_HEADER_LEN as u64) < len {
            return Ok(FramePlan::Torn);
        }
        Ok(FramePlan::Payload { len, checksum })
    }

    /// The record in the payload of the next frame.
    pub fn frame_payload<C: FrameCodec>(&mut self, checksum: u32, payload: &[u8]) -> (r: Result<
        C::Record,
        JournalError,
    >)
        requires
            old(self).wf(),
            old(self).valid_len() + 8 + payload@.len() <= old(self).file_len(),
        ensures
            final(self).wf(),
            final(self).file_len() == old(self).file_len(),
            match payload_record::<C>(payload@, checksum, (old(self).frames() + 1) as u64) {
                Ok(record) => {
                    &&& r is Ok
                    &&& r->Ok_0@ == record
                    &&& final(self).valid_len() == old(self).valid_len() + 8 + payload@.len()
                    &&& final(self).frames() == old(self).frames() + 1
                },
                Err(fault) => {
                    &&& r is Err
                    &&& r->Err_0@ == fault
                    &&& final(self).valid_len() == old(self).valid_len()
                    &&& final(self).frames() == old(self).frames()
                },
            },
    {
        let frame: u64 = self.frames + 1;
        let actual: u32 = crc32_hash(payload);
        if actual != checksum {
            return Err(JournalError::ChecksumMismatch { frame, expected: checksum, actual });
        }
        match C::decode(payload) {
            Ok(record) => {
                self.valid_len = self.valid_len + FRAME_HEADER_LEN as u64 + payload.len() as u64;
                self.frames = frame;
                Ok(record)
            },
            Err(error) => Err(JournalError::DecodeFailed { frame, error }),
        }
    }
}

fn scan_frames<C: FrameCodec>(bytes: &[u8]) -> (r: Result<(Vec<C::Record>, usize), JournalError>)
    requires
        bytes@.len() >= JOURNAL_HEADER_LEN,
    ensures
        match scan::<C>(bytes@, 16, 0) {
            Ok((records, end)) => {
                &&& r is Ok
                &&& record_views(r->Ok_0.0@) == records
                &&& r->Ok_0.1 == end
                &&& end <= bytes@.len()
            },
            Err(fault) => r is Err && r->Err_0@ == fault,
        },
{
    let total: usize = bytes.len();
    let mut scanner = FrameScanner::new(total as u64);
    let mut records: Vec<C::Record> = Vec::new();
    proof {
        assert(record_views(records@) =~= Seq::empty());
        let whole = scan::<C>(bytes@, 16, 0);
        match whole {
            Ok((rest, end)) => {
                assert(Seq::empty() + rest =~= rest);
            },
            Err(_) => {},
        }
    }
    while scanner.has_frame_header()
        invariant
            scanner.wf(),
            scanner.file_len() == bytes@.len(),
            total == bytes@.len(),
            scan::<C>(bytes@, 16, 0) == prepend(
                record_views(records@),
                scan::<C>(bytes@, scanner.valid_len(), scanner.frames()),
            ),
        decreases bytes@.len() - scanner.valid_len(),
    {
        let at: usize = scanner.offset() as usize;
        let ghost index = scanner.frames();
        let header = vstd::slice::slice_subrange(bytes, at, at + FRAME_HEADER_LEN);
        proof {
            assert(header@.subrange(0, 4) =~= bytes@.subrange(at as int, at + 4));
            assert(header@.subrange(4, 8) =~= bytes@.subrange(at + 4, at + 8));
        }
        let plan = match scanner.frame_header(header) {
            Ok(plan) => plan,
            Err(error) => {
                return Err(error);
            },
        };
        match plan {
            FramePlan::Torn => {
                assert(record_views(records@) + Seq::empty() =~= record_views(records@));
                return Ok((records, at));
            },
            FramePlan::Payload { len, checksum } => {
                let payload = vstd::slice::slice_subrange(
                    bytes,
                    at + FRAME_HEADER_LEN,
                    at + FRAME_HEADER_LEN + len as usize,
                );
                match scanner.frame_payload::<C>(checksum, payload) {
                    Ok(record) => {
                        let ghost before = record_views(records@);
                        records.push(record);
                        proof {
                            assert(record_views(records@) =~= before.push(record@));
                            match scan::<C>(bytes@, scanner.valid_len(), index + 1) {
                                Ok((rest, _)) => {
                                    assert(before + (seq![record@] + rest) =~= before.push(record@)
                                        + rest);
                                },
                                Err(_) => {},
                            }
                        }
                    },
                    Err(error) => {
                        return Err(error);
                    },
                }
            },
        }
    }
    assert(record_views(records@) + Seq::empty() =~= record_views(records@));
    Ok((records, scanner.offset() as usize))
}

/// What is wrong with a buffer where the frames in it have this fault: a payload that
/// the codec refuses is refused in the codec's own words.
pub open spec fn buffer_fault(fault: JournalFault) -> JournalFault {
    match fault {
        JournalFault::DecodeFailed { fault, .. } => JournalFault::PayloadRefused { fault },
        other => other,
    }
}

/// The records in a buffer, and the length of its valid part. A frame that is
/// cut off ends the scan.
pub fn decode_frames<C: FrameCodec>(bytes: &[u8]) -> (r: Result<
    (Vec<C::Record>, usize),
    JournalError,
>)
    ensures
        match journal_scan::<C>(bytes@, JournalFault::IncompleteBuffer) {
            Ok((records, end)) => {
                &&& r is Ok
                &&& record_views(r->Ok_0.0@) == records
                &&& r->Ok_0.1 == end
                &&& end <= bytes@.len()
            },
            Err(fault) => r is Err && r->Err_0@ == buffer_fault(fault),
        },
{
    if bytes.len() == 0 {
        let records: Vec<C::Record> = Vec::new();
        assert(record_views(records@) =~= Seq::empty());
        return Ok((records, 0));
    }
    if bytes.len() < JOURNAL_HEADER_LEN {
        return Err(JournalError::IncompleteBuffer);
    }
    match validate_header_bytes(vstd::slice::slice_subrange(bytes, 0, JOURNAL_HEADER_LEN)) {
        Ok(_) => match scan_frames::<C>(bytes) {
            Ok(found) => Ok(found),
            Err(JournalError::DecodeFailed { error, .. }) => Err(
                JournalError::PayloadRefused { error },
            ),
            Err(error) => Err(error),
        },
        Err(error) => Err(error),
    }
}

/// The records of a journal. A frame that a crash cut off is taken out of the
/// journal, which then ends at its last whole frame.
pub fn replay<C: FrameCodec>(journal: &mut Vec<u8>) -> (r: Result<Vec<C::Record>, JournalError>)
    ensures
        match journal_scan::<C>(old(journal)@, JournalFault::IncompleteHeader) {
            Ok((records, end)) => {
                &&& r is Ok
                &&& record_views(r->Ok_0@) == records
                &&& end <= old(journal)@.len()
                &&& final(journal)@ == old(journal)@.take(end as int)
            },
            Err(fault) => {
                &&& r is Err
                &&& r->Err_0@ == fault
                &&& final(journal)@ == old(journal)@
            },
        },
{
    if journal.len() == 0 {
        let records: Vec<C::Record> = Vec::new();
        assert(record_views(records@) =~= Seq::empty());
        assert(journal@.take(0) =~= journal@);
        return Ok(records);
    }
    if journal.len() < JOURNAL_HEADER_LEN {
        return Err(JournalError::IncompleteHeader);
    }
    match validate_header_bytes(
        vstd::slice::slice_subrange(journal.as_slice(), 0, JOURNAL_HEADER_LEN),
    ) {
        Ok(_) => {},
        Err(error) => {
            return Err(error);
        },
    }
    match scan_frames::<C>(journal.as_slice()) {
        Ok((records, end)) => {
            let ghost before = journal@;
            journal.truncate(end);
            assert(journal@ =~= before.take(end as int));
            Ok(records)
        },
        Err(error) => Err(error),
    }
}

/// The frame of `record`; a payload above the limit is refused.
pub fn encode_frame<C: FrameCodec>(record: &C::Record) -> (r: Result<Vec<u8>, JournalError>)
    ensures
        ({
            let payload = C::payload_of(record@);
            if payload.len() > MAX_FRAME_PAYLOAD_BYTES {
                r is Err && r->Err_0@ == (JournalFault::RecordTooLarge {
                    len: payload.len() as u64,
                })
            } else {
                r is Ok && r->Ok_0@ == frame_bytes(payload)
            }
        }),
        C::record_of(C::payload_of(record@)) == Ok::<<C::Record as View>::V, CodecFault>(record@),
{
    let payload = C::encode(record);
    if payload.len() > MAX_FRAME_PAYLOAD_BYTES {
        return Err(JournalError::RecordTooLarge { len: payload.len() as u64 });
    }
    let mut frame: Vec<u8> = Vec::new();
    put_u32(&mut frame, payload.len() as u32);
    put_u32(&mut frame, crc32_hash(payload.as_slice()));
    put_slice(&mut frame, payload.as_slice());
    assert(frame@ =~= frame_bytes(payload@));
    Ok(frame)
}

/// What stands against extending a journal.
pub open spec fn append_fault(journal: Seq<u8>) -> Option<JournalFault> {
    if journal.len() == 0 {
        None
    } else if journal.len() < JOURNAL_HEADER_LEN {
        Some(JournalFault::TornHeader)
    } else {
        header_fault(journal.subrange(0, 16))
    }
}

/// What goes in front of the first frame that is appended to a journal of
/// `file_len` bytes which begins with `head`: a header, where it is empty.
pub fn open_for_append(head: &[u8], file_len: u64) -> (r: Result<Vec<u8>, JournalError>)
    requires
        head@.len() == if file_len < JOURNAL_HEADER_LEN {
            file_len as int
        } else {
            JOURNAL_HEADER_LEN as int
        },
    ensures
        match append_fault(head@) {
            Some(fault) => r is Err && r->Err_0@ == fault,
            None => r is Ok && r->Ok_0@ == if file_len == 0 {
                header_bytes()
            } else {
                Seq::<u8>::empty()
            },
        },
{
    if file_len == 0 {
        return Ok(journal_header());
    }
    if file_len < JOURNAL_HEADER_LEN as u64 {
        return Err(JournalError::TornHeader);
    }
    assert(head@.subrange(0, 16) =~= head@);
    match validate_header_bytes(head) {
        Ok(_) => Ok(Vec::new()),
        Err(error) => Err(error),
    }
}

/// A journal with one more frame, begun with a header where it was empty.
pub open spec fn appended(journal: Seq<u8>, payload: Seq<u8>) -> Seq<u8> {
    if journal.len() == 0 {
        header_bytes() + frame_bytes(payload)
    } else {
        journal + frame_bytes(payload)
    }
}

/// Appends `record` to a journal. A record above the limit, and a journal
/// without a sound header, are refused and leave the journal as it was.
pub fn append<C: FrameCodec>(journal: &mut Vec<u8>, record: &C::Record) -> (r: Result<
    (),
    JournalError,
>)
    ensures
        ({
            let payload = C::payload_of(record@);
            if payload.len() > MAX_FRAME_PAYLOAD_BYTES {
                &&& r is Err
                &&& r->Err_0@ == (JournalFault::RecordTooLarge { len: payload.len() as u64 })
                &&& final(journal)@ == old(journal)@
            } else {
                match append_fault(old(journal)@) {
                    Some(fault) => {
                        &&& r is Err
                        &&& r->Err_0@ == fault
                        &&& final(journal)@ == old(journal)@
                    },
                    None => r is Ok && final(journal)@ == appended(old(journal)@, payload),
                }
            }
        }),
        C::record_of(C::payload_of(record@)) == Ok::<<C::Record as View>::V, CodecFault>(record@),
{
    let frame = match encode_frame::<C>(record) {
        Ok(frame) => frame,
        Err(error) => {
            return Err(error);
        },
    };
    let head_len: usize = if journal.len() < JOURNAL_HEADER_LEN {
        journal.len()
    } else {
        JOURNAL_HEADER_LEN
    };
    let head = vstd::slice::slice_subrange(journal.as_slice(), 0, head_len);
    assert(head_len == 16 ==> head@.subrange(0, 16) =~= journal@.subrange(0, 16));
    match open_for_append(head, journal.len() as u64) {
        Ok(opening) => {
            let ghost before = journal@;
            put_slice(journal, opening.as_slice());
            put_slice(journal, frame.as_slice());
            proof {
                if before.len() == 0 {
                    assert(before + opening@ =~= opening@);
                } else {
                    assert(before + opening@ =~= before);
                }
            }
            Ok(())
        },
        Err(error) => Err(error),
    }
}

} // verus!
