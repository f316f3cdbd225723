//! Append-only framed journal.
//!
//! A journal is a header followed by frames; a frame is the length of its
//! payload, a checksum of the payload and the payload. How a record becomes a
//! payload is the business of a [`FrameCodec`].

pub mod frames;
pub mod laws;
pub mod migration;

use std::marker::PhantomData;
use vstd::prelude::*;
use crate::io_error::IoErrorKind;
use crate::text;
use crate::text::{decimal_text, hexadecimal_text, zero_padded_text};
use crate::wire::put_slice;

verus! {

pub const JOURNAL_VERSION: u16 = 1;

pub const JOURNAL_HEADER_LEN: usize = 16;

pub const FRAME_HEADER_LEN: usize = 8;

/// The largest payload that is read from or written as one frame.
pub const MAX_FRAME_PAYLOAD_BYTES: usize = 536_870_912;

/// Why a codec refuses a payload.
#[derive(Debug, PartialEq, Eq)]
pub struct CodecError {
    pub kind: IoErrorKind,
    pub message: String,
}

/// What the error of a codec says.
pub struct CodecFault {
    pub kind: IoErrorKind,
    pub words: Seq<char>,
}

impl View for CodecError {
    type V = CodecFault;

    open spec fn view(&self) -> CodecFault {
        CodecFault { kind: self.kind, words: self.message@ }
    }
}

/// Why a journal could not be read or extended.
#[derive(Debug, PartialEq, Eq)]
pub enum JournalError {
    IncompleteBuffer,
    IncompleteHeader,
    TornHeader,
    MissingMagic,
    UnsupportedVersion { version: u16 },
    UnsupportedHeaderLen { header_len: u16 },
    ReservedBytes,
    FrameTooLarge { frame: u64, len: u64 },
    ChecksumMismatch { frame: u64, expected: u32, actual: u32 },
    /// The codec refuses the payload of a frame.
    DecodeFailed { frame: u64, error: CodecError },
    /// The codec refuses a payload of a buffer, in its own words.
    PayloadRefused { error: CodecError },
    RecordTooLarge { len: u64 },
    NoCompleteFrame,
}

/// What a journal error says.
pub enum JournalFault {
    IncompleteBuffer,
    IncompleteHeader,
    TornHeader,
    MissingMagic,
    UnsupportedVersion { version: u16 },
    UnsupportedHeaderLen { header_len: u16 },
    ReservedBytes,
    FrameTooLarge { frame: u64, len: u64 },
    ChecksumMismatch { frame: u64, expected: u32, actual: u32 },
    DecodeFailed { frame: u64, fault: CodecFault },
    PayloadRefused { fault: CodecFault },
    RecordTooLarge { len: u64 },
    NoCompleteFrame,
}

impl View for JournalError {
    type V = JournalFault;

    open spec fn view(&self) -> JournalFault {
        match *self {
            JournalError::IncompleteBuffer => JournalFault::IncompleteBuffer,
            JournalError::IncompleteHeader => JournalFault::IncompleteHeader,
            JournalError::TornHeader => JournalFault::TornHeader,
            JournalError::MissingMagic => JournalFault::MissingMagic,
            JournalError::UnsupportedVersion { version } => JournalFault::UnsupportedVersion {
                version,
            },
            JournalError::UnsupportedHeaderLen { header_len } =>
                JournalFault::UnsupportedHeaderLen { header_len },
            JournalError::ReservedBytes => JournalFault::ReservedBytes,
            JournalError::FrameTooLarge { frame, len } => JournalFault::FrameTooLarge {
                frame,
                len,
            },
            JournalError::ChecksumMismatch { frame, expected, actual } =>
                JournalFault::ChecksumMismatch { frame, expected, actual },
            JournalError::DecodeFailed { frame, error } => JournalFault::DecodeFailed {
                frame,
                fault: error@,
            },
            JournalError::PayloadRefused { error } => JournalFault::PayloadRefused {
                fault: error@,
            },
            JournalError::RecordTooLarge { len } => JournalFault::RecordTooLarge { len },
            JournalError::NoCompleteFrame => JournalFault::NoCompleteFrame,
        }
    }
}

/// A checksum as it is written in messages.
pub open spec fn checksum_words(checksum: u32) -> Seq<char> {
    "0x"@ + text::zero_padded(text::hexadecimal(checksum as nat), 8)
}

/// The kind of I/O error that a journal error is: the codec's own where it refuses a
/// payload, else that the bytes are not those of a journal.
pub open spec fn fault_kind(fault: JournalFault) -> IoErrorKind {
    match fault {
        JournalFault::DecodeFailed { fault, .. } => fault.kind,
        JournalFault::PayloadRefused { fault } => fault.kind,
        _ => IoErrorKind::InvalidData,
    }
}

/// The words of a journal error about the journal called `journal`.
pub open spec fn fault_text(fault: JournalFault, journal: Seq<char>) -> Seq<char> {
    match fault {
        JournalFault::IncompleteBuffer => journal + " has no complete Ursula WAL header"@,
        JournalFault::IncompleteHeader => journal
            + " has no complete Ursula WAL header; legacy unversioned journals require an explicit reset or migration"@,
        JournalFault::TornHeader => journal + " has a torn file header"@,
        JournalFault::MissingMagic => journal
            + " has no Ursula WAL magic; legacy unversioned journals require an explicit reset or migration"@,
        JournalFault::UnsupportedVersion { version } => journal
            + " uses unsupported Ursula WAL version "@ + text::decimal(version as nat)
            + "; this binary supports version "@ + text::decimal(JOURNAL_VERSION as nat),
        JournalFault::UnsupportedHeaderLen { header_len } => journal
            + " declares unsupported header length "@ + text::decimal(header_len as nat) + "; expected "@
            + text::decimal(JOURNAL_HEADER_LEN as nat),
        JournalFault::ReservedBytes => journal + " has non-zero reserved header bytes"@,
        JournalFault::FrameTooLarge { frame, len } => journal + " frame "@ + text::decimal(
            frame as nat,
        ) + " declares "@ + text::decimal(len as nat) + " bytes, exceeding the "@ + text::decimal(
            MAX_FRAME_PAYLOAD_BYTES as nat,
        ) + " byte limit"@,
        JournalFault::ChecksumMismatch { frame, expected, actual } => journal + " frame "@
            + text::decimal(frame as nat) + " checksum mismatch: expected "@ + checksum_words(
            expected,
        ) + ", got "@ + checksum_words(actual),
        JournalFault::DecodeFailed { frame, fault } => journal + " frame "@ + text::decimal(
            frame as nat,
        ) + " decode failed: "@ + fault.words,
        JournalFault::PayloadRefused { fault } => fault.words,
        JournalFault::RecordTooLarge { len } => "journal record is "@ + text::decimal(len as nat)
            + " bytes, exceeding the "@ + text::decimal(MAX_FRAME_PAYLOAD_BYTES as nat)
            + " byte limit"@,
        JournalFault::NoCompleteFrame => journal
            + " has neither the Ursula WAL header nor a complete legacy frame"@,
    }
}

fn checksum_text(checksum: u32) -> (r: String)
    ensures
        r@ == checksum_words(checksum),
{
    let mut text = "0x".to_owned();
    let digits = hexadecimal_text(checksum as u128);
    text.append(zero_padded_text(digits.as_str(), 8).as_str());
    text
}

impl JournalError {
    /// The kind of I/O error that this is.
    pub fn kind(&self) -> (r: IoErrorKind)
        ensures
            r == fault_kind(self@),
    {
        match self {
            JournalError::DecodeFailed { error, .. } => error.kind,
            JournalError::PayloadRefused { error } => error.kind,
            _ => IoErrorKind::InvalidData,
        }
    }

    /// The words of the error about the journal called `journal`.
    pub fn message(&self, journal: &str) -> (r: String)
        ensures
            r@ == fault_text(self@, journal@),
    {
        let mut text = journal.to_owned();
        match self {
            JournalError::IncompleteBuffer => {
                text.append(" has no complete Ursula WAL header");
            },
            JournalError::IncompleteHeader => {
                text.append(
                    " has no complete Ursula WAL header; legacy unversioned journals require an explicit reset or migration",
                );
            },
            JournalError::TornHeader => {
                text.append(" has a torn file header");
            },
            JournalError::MissingMagic => {
                text.append(
                    " has no Ursula WAL magic; legacy unversioned journals require an explicit reset or migration",
                );
            },
            JournalError::UnsupportedVersion { version } => {
                text.append(" uses unsupported Ursula WAL version ");
                text.append(decimal_text(*version as u128).as_str());
                text.append("; this binary supports version ");
                text.append(decimal_text(JOURNAL_VERSION as u128).as_str());
            },
            JournalError::UnsupportedHeaderLen { header_len } => {
                text.append(" declares unsupported header length ");
                text.append(decimal_text(*header_len as u128).as_str());
                text.append("; expected ");
                text.append(decimal_text(JOURNAL_HEADER_LEN as u128).as_str());
            },
            JournalError::ReservedBytes => {
                text.append(" has non-zero reserved header bytes");
            },
            JournalError::FrameTooLarge { frame, len } => {
                text.append(" frame ");
                text.append(decimal_text(*frame as u128).as_str());
                text.append(" declares ");
                text.append(decimal_text(*len as u128).as_str());
                text.append(" bytes, exceeding the ");
                text.append(decimal_text(MAX_FRAME_PAYLOAD_BYTES as u128).as_str());
                text.append(" byte limit");
            },
            JournalError::ChecksumMismatch { frame, expected, actual } => {
                text.append(" frame ");
                text.append(decimal_text(*frame as u128).as_str());
                text.append(" checksum mismatch: expected ");
                text.append(checksum_text(*expected).as_str());
                text.append(", got ");
                text.append(checksum_text(*actual).as_str());
            },
            JournalError::DecodeFailed { frame, error } => {
                text.append(" frame ");
                text.append(decimal_text(*frame as u128).as_str());
                text.append(" decode failed: ");
                text.append(error.message.as_str());
            },
            JournalError::PayloadRefused { error } => {
                text = error.message.clone();
            },
            JournalError::RecordTooLarge { len } => {
                text = "journal record is ".to_owned();
                text.append(decimal_text(*len as u128).as_str());
                text.append(" bytes, exceeding the ");
                text.append(decimal_text(MAX_FRAME_PAYLOAD_BYTES as u128).as_str());
                text.append(" byte limit");
            },
            JournalError::NoCompleteFrame => {
                text.append(" has neither the Ursula WAL header nor a complete legacy frame");
            },
        }
        text
    }
}

/// How one record becomes a frame payload and back.
pub trait FrameCodec {
    /// The record type carried in each frame.
    type Record: View;

    /// The payload of a record.
    spec fn payload_of(record: <Self::Record as View>::V) -> Seq<u8>;

    /// The record of a payload, or why the payload is refused.
    spec fn record_of(payload: Seq<u8>) -> Result<<Self::Record as View>::V, CodecFault>;

    /// Turns a record into a payload from which it can be read back.
    fn encode(record: &Self::Record) -> (r: Vec<u8>)
        ensures
            r@ == Self::payload_of(record@),
            Self::record_of(r@) == Ok::<<Self::Record as View>::V, CodecFault>(record@),
    ;

    /// Turns a payload back into a record.
    fn decode(payload: &[u8]) -> (r: Result<Self::Record, CodecError>)
        ensures
            match Self::record_of(payload@) {
                Ok(record) => r is Ok && r->Ok_0@ == record,
                Err(fault) => r is Err && r->Err_0@ == fault,
            },
    ;
}

/// The JSON text of a string.
pub uninterp spec fn json_string_bytes(value: Seq<char>) -> Seq<u8>;

/// The string that a JSON text stands for, or what the parser says against it.
pub uninterp spec fn json_string_parse(payload: Seq<u8>) -> Result<Seq<char>, Seq<char>>;

/// `serde_json::to_vec` on a string. A string always has a JSON text, the text
/// depends on the string alone, and parsing the text gives the string.
#[verifier::external_body]
fn json_string_to_vec(value: &String) -> (r: Vec<u8>)
    ensures
        r@ == json_string_bytes(value@),
        json_string_parse(r@) is Ok && json_string_parse(r@)->Ok_0 == value@,
{
    serde_json::to_vec(value).expect("journal record serializes to JSON")
}

/// `serde_json::from_slice` to a string, with the words of its error. What comes
/// out depends on the bytes alone.
#[verifier::external_body]
fn json_string_from_slice(payload: &[u8]) -> (r: Result<String, String>)
    ensures
        match json_string_parse(payload@) {
            Ok(value) => r is Ok && r->Ok_0@ == value,
            Err(words) => r is Err && r->Err_0@ == words,
        },
{
    serde_json::from_slice::<String>(payload).map_err(|err| err.to_string())
}

/// Frames whose payload is JSON.
pub struct JsonCodec<T>(pub PhantomData<T>);

impl FrameCodec for JsonCodec<String> {
    type Record = String;

    open spec fn payload_of(record: Seq<char>) -> Seq<u8> {
        json_string_bytes(record)
    }

    open spec fn record_of(payload: Seq<u8>) -> Result<Seq<char>, CodecFault> {
        match json_string_parse(payload) {
            Ok(value) => Ok(value),
            Err(words) => Err(CodecFault { kind: IoErrorKind::InvalidData, words }),
        }
    }

    fn encode(record: &String) -> Vec<u8> {
        json_string_to_vec(record)
    }

    fn decode(payload: &[u8]) -> Result<String, CodecError> {
        match json_string_from_slice(payload) {
            Ok(value) => Ok(value),
            Err(message) => Err(CodecError { kind: IoErrorKind::InvalidData, message }),
        }
    }
}

/// Frames whose payload is the record itself, for records that are turned into
/// bytes elsewhere.
pub struct BytesCodec;

impl FrameCodec for BytesCodec {
    type Record = Vec<u8>;

    open spec fn payload_of(record: Seq<u8>) -> Seq<u8> {
        record
    }

    open spec fn record_of(payload: Seq<u8>) -> Result<Seq<u8>, CodecFault> {
        Ok(payload)
    }

    fn encode(record: &Vec<u8>) -> Vec<u8> {
        record.clone()
    }

    fn decode(payload: &[u8]) -> Result<Vec<u8>, CodecError> {
        let mut record: Vec<u8> = Vec::new();
        put_slice(&mut record, payload);
        Ok(record)
    }
}

} // verus!
