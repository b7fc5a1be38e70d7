//! The cells of table B-tree pages.

use crate::error::DbError;
use crate::utils::{
    be_uint, double_word_width, read_be_double_word_at, read_varint_at, varint_len, varint_value,
};
use vstd::prelude::*;
use vstd::slice::slice_to_vec;
use vstd::std_specs::convert::FromSpecImpl;

verus! {

/// A cell of an interior page. The cells of one page are ordered by key.
#[derive(Debug, Clone, Copy, PartialEq)]
pub struct TableInteriorCell {
    /// The child page that holds the keys up to `key`.
    pub left_child_page: u32,
    /// An integer key: a row id.
    pub key: i64,
}

/// A cell of a leaf page: one row.
#[derive(Debug, Clone, PartialEq)]
pub struct TableLeafCell {
    /// The declared length of the payload in bytes.
    pub size: i64,
    pub row_id: i64,
    /// The payload, as far as the page holds it.
    pub payload: Vec<u8>,
}

/// A cell of either kind.
#[derive(Debug, Clone, PartialEq)]
pub enum Cell {
    TableLeaf(TableLeafCell),
    TableInterior(TableInteriorCell),
}

/// What a [`TableLeafCell`] holds, as mathematical data.
pub struct TableLeafCellView {
    pub size: i64,
    pub row_id: i64,
    pub payload: Seq<u8>,
}

/// What a [`Cell`] holds, as mathematical data.
pub enum CellView {
    TableLeaf(TableLeafCellView),
    TableInterior(TableInteriorCell),
}

impl View for TableLeafCell {
    type V = TableLeafCellView;

    open spec fn view(&self) -> TableLeafCellView {
        TableLeafCellView { size: self.size, row_id: self.row_id, payload: self.payload@ }
    }
}

impl View for Cell {
    type V = CellView;

    open spec fn view(&self) -> CellView {
        match self {
            Cell::TableLeaf(leaf) => CellView::TableLeaf(leaf@),
            Cell::TableInterior(interior) => CellView::TableInterior(*interior),
        }
    }
}

impl From<TableLeafCell> for Cell {
    fn from(cell: TableLeafCell) -> (res: Cell) {
        Cell::TableLeaf(cell)
    }
}

impl FromSpecImpl<TableLeafCell> for Cell {
    open spec fn obeys_from_spec() -> bool {
        true
    }

    open spec fn from_spec(cell: TableLeafCell) -> Cell {
        Cell::TableLeaf(cell)
    }
}

impl From<TableInteriorCell> for Cell {
    fn from(cell: TableInteriorCell) -> (res: Cell) {
        Cell::TableInterior(cell)
    }
}

impl FromSpecImpl<TableInteriorCell> for Cell {
    open spec fn obeys_from_spec() -> bool {
        true
    }

    open spec fn from_spec(cell: TableInteriorCell) -> Cell {
        Cell::TableInterior(cell)
    }
}

/// The payload of a leaf cell: the `size` bytes of `buffer` from `start` on,
/// or all the bytes from `start` on where `size` is negative or more than
/// are left.
pub open spec fn leaf_payload(buffer: Seq<u8>, start: int, size: int) -> Seq<u8> {
    if 0 <= size <= buffer.len() - start {
        buffer.subrange(start, start + size)
    } else {
        buffer.subrange(start, buffer.len() as int)
    }
}

/// The leaf cell that begins `buffer`: the payload size as a varint, the row
/// id as a varint, then the payload.
pub open spec fn leaf_cell_spec(buffer: Seq<u8>) -> TableLeafCellView {
    let size_len = varint_len(buffer, 0);
    let row_id_len = varint_len(buffer, size_len as int);
    let size = varint_value(buffer, 0);
    TableLeafCellView {
        size: size as i64,
        row_id: varint_value(buffer, size_len as int) as i64,
        payload: leaf_payload(buffer, (size_len + row_id_len) as int, size),
    }
}

/// The interior cell that begins `buffer`: the left child page as a
/// big-endian double word, then the key as a varint.
pub open spec fn interior_cell_spec(buffer: Seq<u8>) -> TableInteriorCell {
    let width = double_word_width(buffer.len());
    TableInteriorCell {
        left_child_page: be_uint(buffer, 0, width) as u32,
        key: varint_value(buffer, width as int) as i64,
    }
}

impl TableInteriorCell {
    /// Decodes the interior cell that begins `buffer`. Fields that the buffer
    /// is too short for are read as far as it goes.
    pub fn parse(buffer: &[u8]) -> (res: Result<Cell, DbError>)
        ensures
            res matches Ok(cell) && cell@ == CellView::TableInterior(interior_cell_spec(buffer@)),
    {
        let pointer = read_be_double_word_at(buffer, 0);
        let key = read_varint_at(buffer, pointer.0 as usize);
        Ok(Cell::TableInterior(TableInteriorCell { left_child_page: pointer.1, key: key.1 }))
    }
}

impl TableLeafCell {
    /// Decodes the leaf cell that begins `buffer`. Where the buffer holds
    /// fewer bytes than the declared size, the payload is what is there.
    pub fn parse(buffer: &[u8]) -> (res: Result<Cell, DbError>)
        ensures
            res matches Ok(cell) && cell@ == CellView::TableLeaf(leaf_cell_spec(buffer@)),
    {
        let len: usize = buffer.len();
        let size = read_varint_at(buffer, 0);
        let row_id = read_varint_at(buffer, size.0 as usize);
        let start: usize = size.0 as usize + row_id.0 as usize;
        assert(start <= len);
        let end: usize = if size.1 >= 0 && size.1 as u64 <= (len - start) as u64 {
            start + size.1 as usize
        } else {
            len
        };
        let payload = slice_to_vec(vstd::slice::slice_subrange(buffer, start, end));
        Ok(Cell::TableLeaf(TableLeafCell { size: size.1, row_id: row_id.1, payload }))
    }
}

} // verus!
