//! The failure kinds of one account's sync pipeline.

use vstd::prelude::*;

verus! {

/// Everything that can stop the sync of a single account. I/O and transport
/// details live with the caller that performs the operation; the variants
/// here name the failing step.
#[derive(Clone, Copy, PartialEq, Eq, Structural, Debug)]
pub enum MyErrors {
    /// The ledger file could not be opened for reading.
    CannotOpenFile,
    /// The ledger file could not be opened for appending, or a write failed.
    CannotWriteFile,
    /// The backward scan over the ledger file failed.
    CannotReadFileInReverse,
    /// The ledger file holds no lines.
    FileHasNoLines,
    /// The last ledger line holds no field delimiter.
    LineWithoutCommas,
    /// The date field of the last ledger line is no `YYYY-MM-DD` date.
    CannotParseDate,
    /// The fixed reference time could not be built.
    CannotCreateTime,
    /// The advanced timestamp could not be represented.
    CannotParseTimestamp,
    /// The provider request failed in transport.
    CannotDownloadData,
    /// The provider answered with a non-success status.
    NasdaqNotOKResponse,
    /// The provider's response body could not be read.
    CannotReadResponse,
    /// The line is the response header, discarded by position.
    IgnoreCSVHeader,
    /// The line has fewer than seven fields.
    NotEnoughColumns,
    /// The line has no first column.
    MissingFirstColumn,
}

} // verus!
