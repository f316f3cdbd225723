//! The framed journal on concrete bytes.

use ursula_runtime::io_error::IoErrorKind;
use ursula_runtime::journal::frames::{
    append, decode_frames, encode_frame, journal_header, open_for_append, replay,
    validate_header_bytes, FramePlan, FrameScanner,
};
use ursula_runtime::journal::migration::migrate_legacy;
use ursula_runtime::journal::{
    BytesCodec, CodecError, JournalError, JsonCodec, FRAME_HEADER_LEN, JOURNAL_HEADER_LEN,
    MAX_FRAME_PAYLOAD_BYTES,
};

fn write_all(journal: &mut Vec<u8>, records: &[String]) {
    for record in records {
        append::<JsonCodec<String>>(journal, record).expect("append record");
    }
}

fn legacy_frame(record: &str) -> Vec<u8> {
    let payload = serde_json::to_vec(record).expect("encode legacy payload");
    let mut frame = u32::try_from(payload.len())
        .expect("payload length fits u32")
        .to_le_bytes()
        .to_vec();
    frame.extend_from_slice(&payload);
    frame
}

#[test]
fn replays_appended_records_in_order() {
    let mut journal = Vec::new();
    let records = vec!["a".to_owned(), "bb".to_owned(), "ccc".to_owned()];
    write_all(&mut journal, &records);

    let replayed = replay::<JsonCodec<String>>(&mut journal).expect("replay");
    assert_eq!(replayed, records);
}

#[test]
fn replay_of_missing_file_is_empty() {
    let mut journal = Vec::new();
    let replayed = replay::<JsonCodec<String>>(&mut journal).expect("replay");
    assert!(replayed.is_empty());
}

#[test]
fn append_reopens_and_extends_existing_journal() {
    let mut journal = Vec::new();
    write_all(&mut journal, &["first".to_owned()]);
    write_all(&mut journal, &["second".to_owned()]);

    let replayed = replay::<JsonCodec<String>>(&mut journal).expect("replay");
    assert_eq!(replayed, vec!["first".to_owned(), "second".to_owned()]);
}

#[test]
fn replay_truncates_a_torn_trailing_frame() {
    let mut journal = Vec::new();
    write_all(&mut journal, &["clean".to_owned()]);

    // Append a frame whose length header promises more bytes than follow.
    journal.extend_from_slice(&64_u32.to_le_bytes());
    journal.extend_from_slice(b"torn");
    let torn_len = journal.len();

    let replayed = replay::<JsonCodec<String>>(&mut journal).expect("replay");
    assert_eq!(replayed, vec!["clean".to_owned()]);

    // The torn tail was truncated away, so a re-read is clean and shorter.
    let healed_len = journal.len();
    assert!(healed_len < torn_len);
    let reread = replay::<JsonCodec<String>>(&mut journal).expect("re-replay");
    assert_eq!(reread, vec!["clean".to_owned()]);
}

#[test]
fn replay_each_visits_records_without_collecting_them() {
    let mut journal = Vec::new();
    write_all(
        &mut journal,
        &["first".to_owned(), "second".to_owned(), "third".to_owned()],
    );

    let mut scanner = FrameScanner::new(journal.len() as u64);
    let mut replayed = Vec::new();
    while scanner.has_frame_header() {
        let at = scanner.offset() as usize;
        match scanner
            .frame_header(&journal[at..at + FRAME_HEADER_LEN])
            .expect("frame header")
        {
            FramePlan::Torn => panic!("no frame is torn"),
            FramePlan::Payload { len, checksum } => {
                let start = at + FRAME_HEADER_LEN;
                let record = scanner
                    .frame_payload::<JsonCodec<String>>(
                        checksum,
                        &journal[start..start + len as usize],
                    )
                    .expect("stream replay");
                replayed.push(record);
            }
        }
    }

    assert_eq!(scanner.torn_at(), None);
    assert_eq!(replayed, vec!["first", "second", "third"]);
}

#[test]
fn replay_rejects_checksum_corruption() {
    let mut journal = Vec::new();
    write_all(&mut journal, &["clean".to_owned()]);

    let last = journal.len() - 1;
    journal[last] = b'x';

    let err = replay::<JsonCodec<String>>(&mut journal).expect_err("checksum must fail closed");
    assert_eq!(err.kind(), IoErrorKind::InvalidData);
    assert!(err.message("journal").contains("frame 1 checksum mismatch"));
}

#[test]
fn replay_rejects_legacy_unversioned_journal() {
    let mut journal = legacy_frame("legacy");

    let err =
        replay::<JsonCodec<String>>(&mut journal).expect_err("legacy format must be refused");
    assert_eq!(err.kind(), IoErrorKind::InvalidData);
    assert!(err.message("journal").contains("explicit reset or migration"));
}

#[test]
fn legacy_migration_preserves_records_and_a_rollback_copy() {
    let records = ["first".to_owned(), "second".to_owned()];
    let mut legacy = Vec::new();
    for record in &records {
        legacy.extend_from_slice(&legacy_frame(record));
    }
    let copy = legacy.clone();

    let mut migrated = migrate_legacy::<JsonCodec<String>>(&legacy)
        .expect("migrate legacy journal")
        .expect("a legacy journal is rewritten");
    assert_eq!(
        replay::<JsonCodec<String>>(&mut migrated).expect("replay migrated journal"),
        records
    );
    assert_eq!(legacy, copy);
    assert!(migrate_legacy::<JsonCodec<String>>(&migrated)
        .expect("migration is idempotent")
        .is_none());
}

#[test]
fn replay_rejects_unsupported_version() {
    let mut journal = Vec::new();
    write_all(&mut journal, &["clean".to_owned()]);

    journal[8..10].copy_from_slice(&2_u16.to_le_bytes());

    let err = replay::<JsonCodec<String>>(&mut journal).expect_err("version must fail closed");
    assert!(err.message("journal").contains("unsupported Ursula WAL version 2"));
}

#[test]
fn replay_rejects_oversized_frame_before_allocating() {
    let mut journal = Vec::new();
    write_all(&mut journal, &["clean".to_owned()]);

    let oversized =
        u32::try_from(MAX_FRAME_PAYLOAD_BYTES + 1).expect("configured frame limit fits u32");
    journal.extend_from_slice(&oversized.to_le_bytes());
    journal.extend_from_slice(&0_u32.to_le_bytes());

    let err =
        replay::<JsonCodec<String>>(&mut journal).expect_err("oversized frame must fail closed");
    assert!(err
        .message("journal")
        .contains("exceeding the 536870912 byte limit"));
}

#[test]
fn a_journal_has_this_form() {
    let mut journal = Vec::new();
    append::<BytesCodec>(&mut journal, &b"123456789".to_vec()).expect("append record");
    let mut expected = b"URSJWAL\0".to_vec();
    expected.extend_from_slice(&[1, 0, 16, 0, 0, 0, 0, 0]);
    expected.extend_from_slice(&[9, 0, 0, 0]);
    // The check value of CRC-32.
    expected.extend_from_slice(&0xcbf4_3926_u32.to_le_bytes());
    expected.extend_from_slice(b"123456789");
    assert_eq!(journal, expected);
    assert_eq!(journal[..JOURNAL_HEADER_LEN], journal_header()[..]);
}

#[test]
fn a_json_frame_holds_the_quoted_string() {
    let frame = encode_frame::<JsonCodec<String>>(&"a\"b".to_owned()).expect("encode record");
    assert_eq!(frame[..4], 6_u32.to_le_bytes());
    assert_eq!(frame[4..8], crc32fast::hash(b"\"a\\\"b\"").to_le_bytes());
    assert_eq!(&frame[FRAME_HEADER_LEN..], b"\"a\\\"b\"");
}

#[test]
fn a_changed_payload_byte_is_refused() {
    let frame = encode_frame::<BytesCodec>(&b"123456789".to_vec()).expect("encode record");
    assert_eq!(frame[4..8], 0xcbf4_3926_u32.to_le_bytes());
    let empty = encode_frame::<BytesCodec>(&Vec::new()).expect("encode record");
    assert_eq!(empty[4..8], 0_u32.to_le_bytes());
    for at in FRAME_HEADER_LEN..frame.len() {
        let mut journal = journal_header();
        journal.extend_from_slice(&frame);
        journal[JOURNAL_HEADER_LEN + at] ^= 0x10;
        assert!(matches!(
            replay::<BytesCodec>(&mut journal),
            Err(JournalError::ChecksumMismatch {
                frame: 1,
                expected: 0xcbf4_3926,
                ..
            })
        ));
    }
}

#[test]
fn every_header_fault_has_its_own_error() {
    let header = journal_header();
    assert_eq!(validate_header_bytes(&header), Ok(()));
    assert_eq!(
        decode_frames::<BytesCodec>(&header[..5]),
        Err(JournalError::IncompleteBuffer)
    );
    assert_eq!(
        replay::<BytesCodec>(&mut header[..5].to_vec()),
        Err(JournalError::IncompleteHeader)
    );
    assert_eq!(
        open_for_append(&header[..5], 5),
        Err(JournalError::TornHeader)
    );
    let mut bad = header.clone();
    bad[0] ^= 0xff;
    assert_eq!(validate_header_bytes(&bad), Err(JournalError::MissingMagic));
    let mut bad = header.clone();
    bad[8] = 9;
    assert_eq!(
        validate_header_bytes(&bad),
        Err(JournalError::UnsupportedVersion { version: 9 })
    );
    let mut bad = header.clone();
    bad[10] = 17;
    let err = validate_header_bytes(&bad).expect_err("header length");
    assert_eq!(err, JournalError::UnsupportedHeaderLen { header_len: 17 });
    assert_eq!(
        err.message("j"),
        "j declares unsupported header length 17; expected 16"
    );
    let mut bad = header.clone();
    bad[15] = 1;
    assert_eq!(validate_header_bytes(&bad), Err(JournalError::ReservedBytes));
}

#[test]
fn a_payload_that_is_no_record_is_refused() {
    let mut journal = Vec::new();
    append::<BytesCodec>(&mut journal, &b"not json".to_vec()).expect("append record");
    let err = replay::<JsonCodec<String>>(&mut journal).expect_err("decode must fail");
    assert!(matches!(err, JournalError::DecodeFailed { frame: 1, .. }));
    assert!(err.message("j").starts_with("j frame 1 decode failed: "));
    assert_eq!(err.kind(), IoErrorKind::InvalidData);

    let words = serde_json::from_slice::<String>(b"not json")
        .expect_err("no string")
        .to_string();
    let err = decode_frames::<JsonCodec<String>>(&journal).expect_err("decode must fail");
    assert!(matches!(err, JournalError::PayloadRefused { .. }));
    assert_eq!(err.message("in-memory journal"), words);
    assert_eq!(err.kind(), IoErrorKind::InvalidData);

    let error = CodecError {
        kind: IoErrorKind::UnexpectedEof,
        message: "short".to_owned(),
    };
    let err = JournalError::DecodeFailed { frame: 2, error };
    assert_eq!(err.kind(), IoErrorKind::UnexpectedEof);
    assert_eq!(err.message("j"), "j frame 2 decode failed: short");
}

#[test]
fn opening_an_empty_journal_writes_a_header() {
    assert_eq!(open_for_append(&[], 0), Ok(journal_header()));
    let header = journal_header();
    assert_eq!(open_for_append(&header, 16), Ok(Vec::new()));
}

#[test]
fn migration_needs_a_complete_legacy_frame() {
    let err = migrate_legacy::<JsonCodec<String>>(&[1, 2, 3]).expect_err("no frame");
    assert_eq!(err, JournalError::NoCompleteFrame);
    let err = migrate_legacy::<JsonCodec<String>>(&[9, 0, 0, 0, b'x']).expect_err("torn frame");
    assert_eq!(err, JournalError::NoCompleteFrame);
}
