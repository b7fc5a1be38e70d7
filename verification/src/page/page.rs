//! A decoded B-tree page: its header, its cell pointers and its cells.

use crate::error::DbError;
use crate::page::cell::{
    interior_cell_spec, leaf_cell_spec, Cell, CellView, TableInteriorCell, TableLeafCell,
};
use crate::page::page_header::{page_header_spec, PageHeader};
use crate::page::page_type::PageType;
use crate::utils::{be_uint, lemma_be_uint_bound, lemma_pow256_values, read_be_word_at};
use vstd::prelude::*;
use vstd::slice::slice_subrange;

verus! {

/// The length of the file header, which the first page begins with.
pub const HEADER_SIZE: usize = 100;

/// A decoded page. The cells stand in the order of the cell pointers.
#[derive(Debug, Clone, PartialEq)]
pub struct Page {
    pub header: PageHeader,
    /// Where each cell begins, counted from the start of the page's content.
    pub cell_pointers: Vec<u16>,
    pub cells: Vec<Cell>,
}

/// What a [`Page`] holds, as mathematical data.
pub struct PageView {
    pub header: PageHeader,
    pub cell_pointers: Seq<u16>,
    pub cells: Seq<CellView>,
}

/// The cells of a sequence, each as mathematical data.
pub open spec fn cell_views(cells: Seq<Cell>) -> Seq<CellView> {
    cells.map_values(|cell: Cell| cell@)
}

impl View for Page {
    type V = PageView;

    open spec fn view(&self) -> PageView {
        PageView {
            header: self.header,
            cell_pointers: self.cell_pointers@,
            cells: cell_views(self.cells@),
        }
    }
}

/// By how much the cell pointers of page `page_num` are off: by the length of
/// the file header on page 1, by nothing elsewhere.
pub open spec fn pointer_offset(page_num: usize) -> nat {
    if page_num == 1 {
        100
    } else {
        0
    }
}

/// The content of page `page_num`: its bytes without the file header, which
/// page 1 begins with.
pub open spec fn page_content(buffer: Seq<u8>, page_num: usize) -> Seq<u8> {
    buffer.skip(
        if pointer_offset(page_num) <= buffer.len() {
            pointer_offset(page_num) as int
        } else {
            buffer.len() as int
        },
    )
}

/// The bytes of a page's content that follow a header of `header_size`
/// bytes.
pub open spec fn pointer_area(content: Seq<u8>, header_size: usize) -> Seq<u8> {
    content.skip(
        if header_size <= content.len() {
            header_size as int
        } else {
            content.len() as int
        },
    )
}

/// The number of cell pointers read where `n` are declared: all of them, or
/// as many as `buffer` holds in full.
pub open spec fn cell_pointer_count(buffer: Seq<u8>, n: nat) -> nat {
    if n <= buffer.len() / 2 {
        n
    } else {
        buffer.len() / 2
    }
}

/// The `i`-th cell pointer as it is stored: a big-endian word.
pub open spec fn raw_cell_pointer(buffer: Seq<u8>, i: int) -> nat {
    be_uint(buffer, 2 * i, 2)
}

/// Whether one of the first `count` stored cell pointers is below
/// `ptr_offset`.
pub open spec fn has_pointer_below(buffer: Seq<u8>, count: nat, ptr_offset: u16) -> bool {
    exists|i: int| 0 <= i < count && #[trigger] raw_cell_pointer(buffer, i) < ptr_offset
}

/// What reading `n` declared cell pointers from `buffer` yields: each stored
/// pointer less `ptr_offset`, or an error where a stored pointer is below
/// `ptr_offset`.
pub open spec fn cell_pointers_spec(buffer: Seq<u8>, n: nat, ptr_offset: u16) -> Result<
    Seq<u16>,
    DbError,
> {
    let count = cell_pointer_count(buffer, n);
    if has_pointer_below(buffer, count, ptr_offset) {
        Err(DbError::CellDecodeError)
    } else {
        Ok(Seq::new(count, |i: int| (raw_cell_pointer(buffer, i) - ptr_offset) as u16))
    }
}

/// The cell of a page of type `page_type` that begins `buffer`.
pub open spec fn cell_spec(buffer: Seq<u8>, page_type: PageType) -> CellView {
    match page_type {
        PageType::TableLeaf => CellView::TableLeaf(leaf_cell_spec(buffer)),
        PageType::TableInterior => CellView::TableInterior(interior_cell_spec(buffer)),
    }
}

/// Whether one of `pointers` leads past the end of `buffer`.
pub open spec fn has_pointer_outside(buffer: Seq<u8>, pointers: Seq<u16>) -> bool {
    exists|i: int| 0 <= i < pointers.len() && #[trigger] pointers[i] > buffer.len()
}

/// What decoding the cells at `pointers` yields: the cell that begins at each
/// pointer, in the order of the pointers, or an error where a pointer leads
/// past the end of `buffer`.
pub open spec fn cells_spec(buffer: Seq<u8>, pointers: Seq<u16>, page_type: PageType) -> Result<
    Seq<CellView>,
    DbError,
> {
    if has_pointer_outside(buffer, pointers) {
        Err(DbError::CellDecodeError)
    } else {
        Ok(
            Seq::new(
                pointers.len(),
                |i: int| cell_spec(buffer.skip(pointers[i] as int), page_type),
            ),
        )
    }
}

/// What decoding page `page_num` from `buffer` yields.
pub open spec fn page_spec(buffer: Seq<u8>, page_num: usize) -> Result<PageView, DbError> {
    let content = page_content(buffer, page_num);
    match page_header_spec(content) {
        Err(e) => Err(e),
        Ok(header) => match cell_pointers_spec(
            pointer_area(content, header.byte_size()),
            header.cell_count() as nat,
            pointer_offset(page_num) as u16,
        ) {
            Err(e) => Err(e),
            Ok(cell_pointers) => match cells_spec(content, cell_pointers, header.page_type()) {
                Err(e) => Err(e),
                Ok(cells) => Ok(PageView { header, cell_pointers, cells }),
            },
        },
    }
}

impl Page {
    /// Whether the page has as many cells as cell pointers, and no more of
    /// them than its header declares.
    pub open spec fn wf(&self) -> bool {
        self.cells@.len() == self.cell_pointers@.len() <= self.header.cell_count()
    }

    /// Decodes page `page_num` from its bytes.
    ///
    /// On page 1 the first 100 bytes, which hold the file header, are passed
    /// over, and the cell pointers, which count from the start of the page,
    /// are lowered by 100. Cell pointers that the buffer does not hold in full
    /// are left out.
    ///
    /// Fails as the page header does, and with [`DbError::CellDecodeError`]
    /// where a cell pointer of page 1 is below 100 or a cell pointer leads
    /// past the end of the content.
    pub fn parse(buffer: &[u8], page_num: usize) -> (res: Result<Page, DbError>)
        ensures
            match page_spec(buffer@, page_num) {
                Ok(view) => res matches Ok(page) && page@ == view,
                Err(e) => res == Err::<Page, DbError>(e),
            },
            res matches Ok(page) ==> page.wf(),
            res matches Ok(page) ==> forall|i: int|
                0 <= i < page.cell_pointers@.len() ==> #[trigger] page.cell_pointers@[i]
                    + pointer_offset(page_num) == raw_cell_pointer(
                    pointer_area(page_content(buffer@, page_num), page.header.byte_size()),
                    i,
                ),
    {
        let ptr_offset: u16 = if page_num == 1 {
            100
        } else {
            0
        };
        let skip: usize = if ptr_offset as usize <= buffer.len() {
            ptr_offset as usize
        } else {
            buffer.len()
        };
        let content = slice_subrange(buffer, skip, buffer.len());
        let header = match PageHeader::parse(content) {
            Ok(header) => header,
            Err(e) => {
                return Err(e);
            },
        };
        let header_size: usize = if header.byte_size() <= content.len() {
            header.byte_size()
        } else {
            content.len()
        };
        let cell_pointers = match Self::parse_cell_pointers(
            slice_subrange(content, header_size, content.len()),
            header.cell_count() as usize,
            ptr_offset,
        ) {
            Ok(cell_pointers) => cell_pointers,
            Err(e) => {
                return Err(e);
            },
        };
        let page_type = match header {
            PageHeader::TableInteriorPageHeader { .. } => PageType::TableInterior,
            PageHeader::TableLeafPageHeader { .. } => PageType::TableLeaf,
        };
        let cells = match Self::parse_cells(content, cell_pointers.as_slice(), page_type) {
            Ok(cells) => cells,
            Err(e) => {
                return Err(e);
            },
        };
        proof {
            let area = pointer_area(content@, header.byte_size());
            let pointers = cell_pointers_spec(area, header.cell_count() as nat, ptr_offset);
            assert(content@ == page_content(buffer@, page_num));
            assert(pointers == Ok::<Seq<u16>, DbError>(cell_pointers@));
            assert(cell_views(cells@).len() == cells@.len());
            assert forall|i: int| 0 <= i < cell_pointers@.len() implies #[trigger] cell_pointers@[i]
                + pointer_offset(page_num) == raw_cell_pointer(area, i) by {
                assert(!has_pointer_below(
                    area,
                    cell_pointer_count(area, header.cell_count() as nat),
                    ptr_offset,
                ));
                assert(raw_cell_pointer(area, i) >= ptr_offset);
                lemma_be_uint_bound(area, 2 * i, 2);
                lemma_pow256_values();
            }
        }
        Ok(Page { header, cell_pointers, cells })
    }

    /// Decodes the cells of a page of type `page_type` that begin at
    /// `cell_pointers` in `buffer`, in the order of the pointers.
    ///
    /// Fails with [`DbError::CellDecodeError`] where a pointer leads past the
    /// end of `buffer`.
    pub fn parse_cells(buffer: &[u8], cell_pointers: &[u16], page_type: PageType) -> (res: Result<
        Vec<Cell>,
        DbError,
    >)
        ensures
            match cells_spec(buffer@, cell_pointers@, page_type) {
                Ok(views) => res matches Ok(cells) && cell_views(cells@) == views,
                Err(e) => res == Err::<Vec<Cell>, DbError>(e),
            },
    {
        let mut cells: Vec<Cell> = Vec::new();
        let mut i: usize = 0;
        while i < cell_pointers.len()
            invariant
                i <= cell_pointers@.len(),
                cells@.len() == i,
                forall|j: int| 0 <= j < i ==> #[trigger] cell_pointers@[j] <= buffer@.len(),
                forall|j: int|
                    0 <= j < i ==> (#[trigger] cells@[j])@ == cell_spec(
                        buffer@.skip(cell_pointers@[j] as int),
                        page_type,
                    ),
            decreases cell_pointers@.len() - i,
        {
            let pointer: usize = cell_pointers[i] as usize;
            if pointer > buffer.len() {
                assert(cell_pointers@[i as int] > buffer@.len());
                return Err(DbError::CellDecodeError);
            }
            let cell_bytes = slice_subrange(buffer, pointer, buffer.len());
            assert(cell_bytes@ == buffer@.skip(pointer as int));
            let parsed = match page_type {
                PageType::TableInterior => TableInteriorCell::parse(cell_bytes),
                PageType::TableLeaf => TableLeafCell::parse(cell_bytes),
            };
            match parsed {
                Ok(cell) => {
                    cells.push(cell);
                },
                Err(e) => {
                    return Err(e);
                },
            }
            i = i + 1;
        }
        assert(cell_views(cells@) =~= cells_spec(buffer@, cell_pointers@, page_type).unwrap());
        Ok(cells)
    }

    /// Reads the `n` cell pointers that `buffer` begins with, each a
    /// big-endian word, and lowers each by `ptr_offset`. Pointers that the
    /// buffer does not hold in full are left out.
    ///
    /// Fails with [`DbError::CellDecodeError`] where a pointer is below
    /// `ptr_offset`.
    pub fn parse_cell_pointers(buffer: &[u8], n: usize, ptr_offset: u16) -> (res: Result<
        Vec<u16>,
        DbError,
    >)
        ensures
            match cell_pointers_spec(buffer@, n as nat, ptr_offset) {
                Ok(pointers) => res matches Ok(found) && found@ == pointers,
                Err(e) => res == Err::<Vec<u16>, DbError>(e),
            },
    {
        let len: usize = buffer.len();
        let count: usize = if n <= len / 2 {
            n
        } else {
            len / 2
        };
        let mut pointers: Vec<u16> = Vec::new();
        let mut i: usize = 0;
        while i < count
            invariant
                i <= count,
                len == buffer@.len(),
                2 * count <= len,
                count == cell_pointer_count(buffer@, n as nat),
                pointers@.len() == i,
                forall|j: int|
                    0 <= j < i ==> #[trigger] raw_cell_pointer(buffer@, j) >= ptr_offset
                        && pointers@[j] == raw_cell_pointer(buffer@, j) - ptr_offset,
            decreases count - i,
        {
            let raw: u16 = read_be_word_at(buffer, 2 * i).1;
            if raw < ptr_offset {
                assert(raw_cell_pointer(buffer@, i as int) < ptr_offset);
                return Err(DbError::CellDecodeError);
            }
            pointers.push(raw - ptr_offset);
            i = i + 1;
        }
        assert(pointers@ =~= cell_pointers_spec(buffer@, n as nat, ptr_offset).unwrap());
        Ok(pointers)
    }
}

} // verus!
