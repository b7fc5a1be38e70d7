//! The header that every B-tree page begins with.

use crate::error::DbError;
use crate::page::page_type::{page_type_of, PageType};
use crate::utils::{
    be_uint, double_word_width, read_be_double_word_at, read_be_word_at, remaining,
};
use vstd::prelude::*;

verus! {

/// What the raw value `0` of a page's cell content offset stands for, and the
/// raw value `1` of the file's page size.
pub const PAGE_MAX_SIZE: u32 = 65536;

/// The least number of bytes that a page header is parsed from.
pub const PAGE_HEADER_MIN_SIZE: usize = 7;

/// The encoded size of a leaf page's header.
pub const PAGE_HEADER_SIZE_LEAF: usize = 8;

/// The encoded size of an interior page's header.
pub const PAGE_HEADER_SIZE_INTERIOR: usize = 12;

/// The header of a table B-tree page, in its two shapes.
#[derive(Debug, Copy, Clone, PartialEq)]
pub enum PageHeader {
    TableLeafPageHeader {
        first_freeblock: u16,
        cell_count: u16,
        cell_content_offset: u32,
        fragmented_bytes_count: u8,
    },
    TableInteriorPageHeader {
        first_freeblock: u16,
        cell_count: u16,
        cell_content_offset: u32,
        fragmented_bytes_count: u8,
        /// The root of the subtree whose keys are above every key in the
        /// page's cells.
        rightmost_pointer: u32,
    },
}

/// The cell content offset that a raw field value stands for: `0` stands for
/// 65536.
pub open spec fn cell_content_offset_of(raw: nat) -> nat {
    if raw == 0 {
        65536
    } else {
        raw
    }
}

/// The byte at `offset`, or `0` past the end of the buffer.
pub open spec fn byte_or_zero(buffer: Seq<u8>, offset: int) -> u8 {
    if 0 <= offset < buffer.len() {
        buffer[offset]
    } else {
        0
    }
}

/// What parsing a page header from `buffer` yields.
///
/// The tag is at offset 0, the first freeblock at 1, the cell count at 3, the
/// cell content offset at 5, the count of fragmented bytes at 7 and, in an
/// interior page, the rightmost pointer at 8. A field that lies past the end
/// of the buffer is read as far as the buffer goes.
pub open spec fn page_header_spec(buffer: Seq<u8>) -> Result<PageHeader, DbError> {
    if buffer.len() < 7 {
        Err(DbError::ShortHeader)
    } else {
        let first_freeblock = be_uint(buffer, 1, 2) as u16;
        let cell_count = be_uint(buffer, 3, 2) as u16;
        let cell_content_offset = cell_content_offset_of(be_uint(buffer, 5, 2)) as u32;
        let fragmented_bytes_count = byte_or_zero(buffer, 7);
        match page_type_of(buffer[0]) {
            None => Err(DbError::UnknownPageType(buffer[0])),
            Some(PageType::TableLeaf) => Ok(
                PageHeader::TableLeafPageHeader {
                    first_freeblock,
                    cell_count,
                    cell_content_offset,
                    fragmented_bytes_count,
                },
            ),
            Some(PageType::TableInterior) => Ok(
                PageHeader::TableInteriorPageHeader {
                    first_freeblock,
                    cell_count,
                    cell_content_offset,
                    fragmented_bytes_count,
                    rightmost_pointer: be_uint(
                        buffer,
                        8,
                        double_word_width(remaining(buffer.len(), 8)),
                    ) as u32,
                },
            ),
        }
    }
}

impl PageHeader {
    /// Whether this is the header of an interior page.
    pub open spec fn is_interior(&self) -> bool {
        self is TableInteriorPageHeader
    }

    /// The kind of page that this header belongs to.
    pub open spec fn page_type(&self) -> PageType {
        if self.is_interior() {
            PageType::TableInterior
        } else {
            PageType::TableLeaf
        }
    }

    /// The offset of the first freeblock in the page, `0` if there is none.
    pub open spec fn spec_first_freeblock(&self) -> u16 {
        match *self {
            PageHeader::TableInteriorPageHeader { first_freeblock, .. } => first_freeblock,
            PageHeader::TableLeafPageHeader { first_freeblock, .. } => first_freeblock,
        }
    }

    /// The number of cells that the page declares.
    pub open spec fn spec_cell_count(&self) -> u16 {
        match *self {
            PageHeader::TableInteriorPageHeader { cell_count, .. } => cell_count,
            PageHeader::TableLeafPageHeader { cell_count, .. } => cell_count,
        }
    }

    /// The offset at which the cell content begins.
    pub open spec fn spec_cell_content_offset(&self) -> u32 {
        match *self {
            PageHeader::TableInteriorPageHeader { cell_content_offset, .. } => cell_content_offset,
            PageHeader::TableLeafPageHeader { cell_content_offset, .. } => cell_content_offset,
        }
    }

    /// The number of fragmented free bytes in the cell content.
    pub open spec fn spec_fragmented_bytes_count(&self) -> u8 {
        match *self {
            PageHeader::TableInteriorPageHeader {
                fragmented_bytes_count,
                ..
            } => fragmented_bytes_count,
            PageHeader::TableLeafPageHeader { fragmented_bytes_count, .. } => fragmented_bytes_count,
        }
    }

    /// The rightmost pointer of an interior page; `None` for a leaf page.
    pub open spec fn spec_rightmost_pointer(&self) -> Option<u32> {
        match *self {
            PageHeader::TableInteriorPageHeader { rightmost_pointer, .. } => Some(rightmost_pointer),
            PageHeader::TableLeafPageHeader { .. } => None,
        }
    }

    /// The encoded size of the header: 12 bytes for an interior page, 8 for a
    /// leaf page.
    pub open spec fn spec_byte_size(&self) -> usize {
        if self.is_interior() {
            12
        } else {
            8
        }
    }

    /// Parses the header at the start of `buffer`.
    ///
    /// Fails with [`DbError::ShortHeader`] on fewer than seven bytes, and
    /// else with [`DbError::UnknownPageType`] on a tag other than 13 and 5.
    pub fn parse(buffer: &[u8]) -> (res: Result<PageHeader, DbError>)
        ensures
            res == page_header_spec(buffer@),
    {
        if buffer.len() < PAGE_HEADER_MIN_SIZE {
            return Err(DbError::ShortHeader);
        }
        let page_type = match PageType::parse(buffer) {
            Ok(page_type) => page_type,
            Err(e) => {
                return Err(e);
            },
        };
        let first_freeblock: u16 = read_be_word_at(buffer, 1).1;
        let cell_count: u16 = read_be_word_at(buffer, 3).1;
        let raw_content_offset: u16 = read_be_word_at(buffer, 5).1;
        let cell_content_offset: u32 = if raw_content_offset == 0 {
            PAGE_MAX_SIZE
        } else {
            raw_content_offset as u32
        };
        let fragmented_bytes_count: u8 = if buffer.len() > 7 {
            buffer[7]
        } else {
            0
        };
        let header = match page_type {
            PageType::TableInterior => PageHeader::TableInteriorPageHeader {
                first_freeblock,
                cell_count,
                cell_content_offset,
                fragmented_bytes_count,
                rightmost_pointer: read_be_double_word_at(buffer, 8).1,
            },
            PageType::TableLeaf => PageHeader::TableLeafPageHeader {
                first_freeblock,
                cell_count,
                cell_content_offset,
                fragmented_bytes_count,
            },
        };
        Ok(header)
    }

    /// The offset of the first freeblock in the page, `0` if there is none.
    #[verifier::when_used_as_spec(spec_first_freeblock)]
    pub fn first_freeblock(&self) -> (res: u16)
        ensures
            res == self.spec_first_freeblock(),
    {
        match *self {
            PageHeader::TableInteriorPageHeader { first_freeblock, .. } => first_freeblock,
            PageHeader::TableLeafPageHeader { first_freeblock, .. } => first_freeblock,
        }
    }

    /// The number of cells that the page declares.
    #[verifier::when_used_as_spec(spec_cell_count)]
    pub fn cell_count(&self) -> (res: u16)
        ensures
            res == self.spec_cell_count(),
    {
        match *self {
            PageHeader::TableInteriorPageHeader { cell_count, .. } => cell_count,
            PageHeader::TableLeafPageHeader { cell_count, .. } => cell_count,
        }
    }

    /// The offset at which the cell content begins.
    #[verifier::when_used_as_spec(spec_cell_content_offset)]
    pub fn cell_content_offset(&self) -> (res: u32)
        ensures
            res == self.spec_cell_content_offset(),
    {
        match *self {
            PageHeader::TableInteriorPageHeader { cell_content_offset, .. } => cell_content_offset,
            PageHeader::TableLeafPageHeader { cell_content_offset, .. } => cell_content_offset,
        }
    }

    /// The number of fragmented free bytes in the cell content.
    #[verifier::when_used_as_spec(spec_fragmented_bytes_count)]
    pub fn fragmented_bytes_count(&self) -> (res: u8)
        ensures
            res == self.spec_fragmented_bytes_count(),
    {
        match *self {
            PageHeader::TableInteriorPageHeader {
                fragmented_bytes_count,
                ..
            } => fragmented_bytes_count,
            PageHeader::TableLeafPageHeader { fragmented_bytes_count, .. } => fragmented_bytes_count,
        }
    }

    /// The rightmost pointer of an interior page; `None` for a leaf page.
    #[verifier::when_used_as_spec(spec_rightmost_pointer)]
    pub fn rightmost_pointer(&self) -> (res: Option<u32>)
        ensures
            res == self.spec_rightmost_pointer(),
    {
        match *self {
            PageHeader::TableInteriorPageHeader { rightmost_pointer, .. } => Some(rightmost_pointer),
            PageHeader::TableLeafPageHeader { .. } => None,
        }
    }

    /// The encoded size of the header: 12 bytes for an interior page, 8 for
    /// a leaf page.
    #[verifier::when_used_as_spec(spec_byte_size)]
    pub fn byte_size(&self) -> (res: usize)
        ensures
            res == self.spec_byte_size(),
    {
        match self {
            PageHeader::TableInteriorPageHeader { .. } => PAGE_HEADER_SIZE_INTERIOR,
            PageHeader::TableLeafPageHeader { .. } => PAGE_HEADER_SIZE_LEAF,
        }
    }
}

} // verus!
