//! The cold tier: which objects to read and write, what to keep in memory, and
//! what each request comes to.

pub mod block_read;
pub mod faults;
pub mod paths;
pub mod read_cache;
pub mod reads;
pub mod settings;

use vstd::prelude::*;
use crate::io_error::IoErrorKind;
use crate::text;
use crate::text::decimal_text;

verus! {

/// The content type of a stream that names none.
pub const DEFAULT_CONTENT_TYPE: &'static str = "application/octet-stream";


/// What is done to the store.
#[derive(Debug, Clone, Copy, PartialEq, Eq, Structural)]
pub enum ColdStoreOperation {
    WriteChunk,
    DeleteChunk,
    RemoveAll,
    ReadObjectRange,
}

/// The name of an operation.
pub open spec fn operation_name(operation: ColdStoreOperation) -> Seq<char> {
    match operation {
        ColdStoreOperation::WriteChunk => "write_chunk"@,
        ColdStoreOperation::DeleteChunk => "delete_chunk"@,
        ColdStoreOperation::RemoveAll => "remove_all"@,
        ColdStoreOperation::ReadObjectRange => "read_object_range"@,
    }
}

impl ColdStoreOperation {
    /// The name of the operation.
    pub fn as_str(self) -> (r: &'static str)
        ensures
            r@ == operation_name(self),
    {
        match self {
            ColdStoreOperation::WriteChunk => "write_chunk",
            ColdStoreOperation::DeleteChunk => "delete_chunk",
            ColdStoreOperation::RemoveAll => "remove_all",
            ColdStoreOperation::ReadObjectRange => "read_object_range",
        }
    }
}

/// Which store is in use, and where it is.
#[derive(Debug, Clone, PartialEq, Eq)]
pub struct ColdStoreInfo {
    pub backend: &'static str,
    pub root: Option<String>,
    pub bucket: Option<String>,
    pub region: Option<String>,
    pub endpoint: Option<String>,
}

/// Why a request to the cold tier failed.
#[derive(Debug, Clone, PartialEq, Eq)]
pub enum ColdStoreError {
    EmptyPath,
    MissingBucket,
    BlankBucket,
    UnsupportedBackend { name: String },
    RangeOverflow,
    OutsideSegment { read_start: u64, read_end: u64, start_offset: u64, end_offset: u64 },
    OutsideObject { object_start: u64, object_end: u64, path: String, object_size: u64 },
    ShortRead { path: String, returned: usize, object_start: u64, object_end: u64 },
    ShortBlock {
        path: String,
        returned: usize,
        block_start: u64,
        block_end: u64,
        object_size: u64,
    },
    FaultInjected { operation: ColdStoreOperation, path: String, message: String },
}

/// The class of an error.
pub open spec fn error_kind(error: ColdStoreError) -> IoErrorKind {
    match error {
        ColdStoreError::EmptyPath => IoErrorKind::InvalidInput,
        ColdStoreError::MissingBucket => IoErrorKind::InvalidInput,
        ColdStoreError::BlankBucket => IoErrorKind::InvalidInput,
        ColdStoreError::UnsupportedBackend { .. } => IoErrorKind::InvalidInput,
        ColdStoreError::RangeOverflow => IoErrorKind::InvalidInput,
        ColdStoreError::OutsideSegment { .. } => IoErrorKind::InvalidInput,
        ColdStoreError::OutsideObject { .. } => IoErrorKind::InvalidData,
        ColdStoreError::ShortRead { .. } => IoErrorKind::InvalidData,
        ColdStoreError::ShortBlock { .. } => IoErrorKind::InvalidData,
        ColdStoreError::FaultInjected { .. } => IoErrorKind::Other,
    }
}

/// A range as it is written in messages.
pub open spec fn range_words(start: u64, end: u64) -> Seq<char> {
    "["@ + text::decimal(start as nat) + ".."@ + text::decimal(end as nat) + ")"@
}

/// The words of an error.
pub open spec fn error_text(error: ColdStoreError) -> Seq<char> {
    match error {
        ColdStoreError::EmptyPath => "cold chunk path must not be empty"@,
        ColdStoreError::MissingBucket =>
            "URSULA_COLD_S3_BUCKET is required when URSULA_COLD_BACKEND=s3"@,
        ColdStoreError::BlankBucket => "URSULA_COLD_S3_BUCKET must not be empty"@,
        ColdStoreError::UnsupportedBackend { name } => "unsupported URSULA_COLD_BACKEND '"@ + name@
            + "'"@,
        ColdStoreError::RangeOverflow => "cold read range overflow"@,
        ColdStoreError::OutsideSegment { read_start, read_end, start_offset, end_offset } =>
            "cold read range "@ + range_words(read_start, read_end)
            + " is outside object segment "@ + range_words(start_offset, end_offset),
        ColdStoreError::OutsideObject { object_start, object_end, path, object_size } =>
            "cold read range "@ + range_words(object_start, object_end) + " is outside object '"@
            + path@ + "' size "@ + text::decimal(object_size as nat),
        ColdStoreError::ShortRead { path, returned, object_start, object_end } => "cold object '"@
            + path@ + "' returned "@ + text::decimal(returned as nat)
            + " bytes for requested range "@ + range_words(object_start, object_end),
        ColdStoreError::ShortBlock { path, returned, block_start, block_end, object_size } =>
            "cold object '"@ + path@ + "' returned "@ + text::decimal(returned as nat)
            + " bytes for cache block "@ + range_words(block_start, block_end)
            + " of object size "@ + text::decimal(object_size as nat),
        ColdStoreError::FaultInjected { operation, path, message } =>
            "cold store fault injected for "@ + operation_name(operation) + " '"@ + path@ + "': "@
            + message@,
    }
}

fn range_text(start: u64, end: u64) -> (r: String)
    ensures
        r@ == range_words(start, end),
{
    let mut text = "[".to_owned();
    text.append(decimal_text(start as u128).as_str());
    text.append("..");
    text.append(decimal_text(end as u128).as_str());
    text.append(")");
    text
}

impl ColdStoreError {
    pub fn kind(&self) -> (r: IoErrorKind)
        ensures
            r == error_kind(*self),
    {
        match self {
            ColdStoreError::EmptyPath => IoErrorKind::InvalidInput,
            ColdStoreError::MissingBucket => IoErrorKind::InvalidInput,
            ColdStoreError::BlankBucket => IoErrorKind::InvalidInput,
            ColdStoreError::UnsupportedBackend { .. } => IoErrorKind::InvalidInput,
            ColdStoreError::RangeOverflow => IoErrorKind::InvalidInput,
            ColdStoreError::OutsideSegment { .. } => IoErrorKind::InvalidInput,
            ColdStoreError::OutsideObject { .. } => IoErrorKind::InvalidData,
            ColdStoreError::ShortRead { .. } => IoErrorKind::InvalidData,
            ColdStoreError::ShortBlock { .. } => IoErrorKind::InvalidData,
            ColdStoreError::FaultInjected { .. } => IoErrorKind::Other,
        }
    }

    pub fn message(&self) -> (r: String)
        ensures
            r@ == error_text(*self),
    {
        match self {
            ColdStoreError::EmptyPath => "cold chunk path must not be empty".to_owned(),
            ColdStoreError::MissingBucket =>
                "URSULA_COLD_S3_BUCKET is required when URSULA_COLD_BACKEND=s3".to_owned(),
            ColdStoreError::BlankBucket => "URSULA_COLD_S3_BUCKET must not be empty".to_owned(),
            ColdStoreError::UnsupportedBackend { name } => {
                let mut text = "unsupported URSULA_COLD_BACKEND '".to_owned();
                text.append(name.as_str());
                text.append("'");
                text
            },
            ColdStoreError::RangeOverflow => "cold read range overflow".to_owned(),
            ColdStoreError::OutsideSegment { read_start, read_end, start_offset, end_offset } => {
                let mut text = "cold read range ".to_owned();
                text.append(range_text(*read_start, *read_end).as_str());
                text.append(" is outside object segment ");
                text.append(range_text(*start_offset, *end_offset).as_str());
                text
            },
            ColdStoreError::OutsideObject { object_start, object_end, path, object_size } => {
                let mut text = "cold read range ".to_owned();
                text.append(range_text(*object_start, *object_end).as_str());
                text.append(" is outside object '");
                text.append(path.as_str());
                text.append("' size ");
                text.append(decimal_text(*object_size as u128).as_str());
                text
            },
            ColdStoreError::ShortRead { path, returned, object_start, object_end } => {
                let mut text = "cold object '".to_owned();
                text.append(path.as_str());
                text.append("' returned ");
                text.append(decimal_text(*returned as u128).as_str());
                text.append(" bytes for requested range ");
                text.append(range_text(*object_start, *object_end).as_str());
                text
            },
            ColdStoreError::ShortBlock { path, returned, block_start, block_end, object_size } => {
                let mut text = "cold object '".to_owned();
                text.append(path.as_str());
                text.append("' returned ");
                text.append(decimal_text(*returned as u128).as_str());
                text.append(" bytes for cache block ");
                text.append(range_text(*block_start, *block_end).as_str());
                text.append(" of object size ");
                text.append(decimal_text(*object_size as u128).as_str());
                text
            },
            ColdStoreError::FaultInjected { operation, path, message } => {
                let mut text = "cold store fault injected for ".to_owned();
                text.append(operation.as_str());
                text.append(" '");
                text.append(path.as_str());
                text.append("': ");
                text.append(message.as_str());
                text
            },
        }
    }
}

} // verus!
