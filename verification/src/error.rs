//! The ways in which reading a database can fail.

use vstd::prelude::*;

verus! {

/// Why a read or a decoding step failed.
#[derive(Debug, Clone, Copy, PartialEq, Eq)]
pub enum DbError {
    /// A seek or a read on the backing file failed, or gave fewer bytes than
    /// a page holds.
    IoError,
    /// The file does not begin with the magic string of the format.
    InvalidHeader,
    /// The page size in the file header is not a power of two.
    InvalidPageSize,
    /// Fewer bytes than a page header needs.
    ShortHeader,
    /// A page whose type tag is neither that of a table leaf nor that of a
    /// table interior page; the tag is given.
    UnknownPageType(u8),
    /// A cell pointer that leads outside the page's content.
    CellDecodeError,
    /// A record whose declared header length does not agree with its bytes.
    BadRecordHeader,
    /// A serial type that stands for no field type; the serial type is given.
    UnsupportedSerialType(i64),
    /// A text field whose bytes are not valid UTF-8.
    InvalidUtf8,
}

} // verus!
