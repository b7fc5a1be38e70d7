//! The tag that tells the kinds of B-tree page apart.

use crate::error::DbError;
use vstd::prelude::*;

verus! {

/// The tag of a table leaf page.
pub const PAGE_LEAF_TABLE_ID: u8 = 13;

/// The tag of a table interior page.
pub const PAGE_INTERIOR_TABLE_ID: u8 = 5;

/// The kinds of page that can be decoded.
#[derive(Debug, Copy, Clone, PartialEq, Eq)]
pub enum PageType {
    TableLeaf,
    TableInterior,
}

/// The kind of page that a tag stands for, if any: 13 for a table leaf, 5
/// for a table interior page.
pub open spec fn page_type_of(tag: u8) -> Option<PageType> {
    if tag == 13 {
        Some(PageType::TableLeaf)
    } else if tag == 5 {
        Some(PageType::TableInterior)
    } else {
        None
    }
}

/// What reading the page type from the first byte of `buffer` yields.
pub open spec fn page_type_spec(buffer: Seq<u8>) -> Result<PageType, DbError> {
    if buffer.len() == 0 {
        Err(DbError::ShortHeader)
    } else {
        match page_type_of(buffer[0]) {
            Some(page_type) => Ok(page_type),
            None => Err(DbError::UnknownPageType(buffer[0])),
        }
    }
}

impl PageType {
    /// Reads the page type from the first byte of `buffer`.
    ///
    /// Fails with [`DbError::ShortHeader`] on an empty buffer and with
    /// [`DbError::UnknownPageType`] on any tag but 13 and 5.
    pub fn parse(buffer: &[u8]) -> (res: Result<PageType, DbError>)
        ensures
            res == page_type_spec(buffer@),
    {
        if buffer.len() == 0 {
            return Err(DbError::ShortHeader);
        }
        let tag: u8 = buffer[0];
        if tag == PAGE_LEAF_TABLE_ID {
            Ok(PageType::TableLeaf)
        } else if tag == PAGE_INTERIOR_TABLE_ID {
            Ok(PageType::TableInterior)
        } else {
            Err(DbError::UnknownPageType(tag))
        }
    }
}

} // verus!
