//! The depth-first scan of a table B-tree, one record at a time.
//!
//! The scanner holds the path from the root to the page at hand and decides
//! what comes next. It reads no pages itself: where it needs one it says so,
//! and is handed the page.

use crate::cursor::{Cursor, CursorView};
use crate::error::DbError;
use crate::page::cell::{Cell, CellView};
use crate::page::page::Page;
use crate::page::positioned_page::PositionedPage;
use crate::record::record_header::{record_header_spec, RecordHeader};
use vstd::prelude::*;
use vstd::slice::slice_to_vec;

verus! {

/// What the page at hand holds next.
#[derive(Debug)]
pub enum ScannerElem {
    /// A child page to descend into.
    PagePointer(u32),
    /// A record.
    Cursor(Cursor),
}

/// What a [`ScannerElem`] holds, as mathematical data.
pub enum ScannerElemView {
    PagePointer(u32),
    Cursor(CursorView),
}

impl View for ScannerElem {
    type V = ScannerElemView;

    open spec fn view(&self) -> ScannerElemView {
        match self {
            ScannerElem::PagePointer(pointer) => ScannerElemView::PagePointer(*pointer),
            ScannerElem::Cursor(cursor) => ScannerElemView::Cursor(cursor@),
        }
    }
}

/// What the scan does next.
#[derive(Debug)]
pub enum ScanStep {
    /// The next record of the table.
    Record(Cursor),
    /// The scan goes on in the page of this number, which the caller is to
    /// hand over with [`Scanner::push_page`].
    LoadPage(usize),
    /// The table holds no further record.
    Done,
}

/// What a [`ScanStep`] holds, as mathematical data.
pub enum ScanStepView {
    Record(CursorView),
    LoadPage(usize),
    Done,
}

impl View for ScanStep {
    type V = ScanStepView;

    open spec fn view(&self) -> ScanStepView {
        match self {
            ScanStep::Record(cursor) => ScanStepView::Record(cursor@),
            ScanStep::LoadPage(page_num) => ScanStepView::LoadPage(*page_num),
            ScanStep::Done => ScanStepView::Done,
        }
    }
}

/// The page `page` with its position moved one further.
pub open spec fn moved_on(page: PositionedPage) -> PositionedPage {
    PositionedPage { page: page.page, cell_num: (page.cell_num + 1) as usize }
}

/// The page at hand after it has been asked for its next element: moved one
/// further where it had a rightmost pointer or a cell to give, else as it
/// was.
pub open spec fn page_after_elem(page: PositionedPage) -> PositionedPage {
    if page.at_rightmost_pointer() || page.has_next_cell() {
        moved_on(page)
    } else {
        page
    }
}

/// The next element of the page at hand.
///
/// The rightmost pointer of an interior page comes once its cells have all
/// been visited. Before that, a cell of an interior page gives the pointer
/// to its left child, and a cell of a leaf page gives its record, or the
/// error of parsing the record's header. A page with nothing left gives
/// `None`.
pub open spec fn elem_of_page(page: PositionedPage) -> Result<Option<ScannerElemView>, DbError> {
    if page.at_rightmost_pointer() {
        Ok(Some(ScannerElemView::PagePointer(page.page.header.rightmost_pointer().unwrap())))
    } else if page.has_next_cell() {
        match page.page.cells@[page.cell_num as int]@ {
            CellView::TableInterior(interior) => Ok(
                Some(ScannerElemView::PagePointer(interior.left_child_page)),
            ),
            CellView::TableLeaf(leaf) => match record_header_spec(leaf.payload) {
                Ok(fields) => Ok(
                    Some(ScannerElemView::Cursor(CursorView { fields, payload: leaf.payload })),
                ),
                Err(e) => Err(e),
            },
        }
    } else {
        Ok(None)
    }
}

/// The path after its last page has been asked for its next element.
pub open spec fn path_after_elem(path: Seq<PositionedPage>) -> Seq<PositionedPage> {
    if path.len() == 0 {
        path
    } else {
        path.drop_last().push(page_after_elem(path.last()))
    }
}

/// The next element of the last page of the path; none on an empty path.
pub open spec fn elem_of_path(path: Seq<PositionedPage>) -> Result<
    Option<ScannerElemView>,
    DbError,
> {
    if path.len() == 0 {
        Ok(None)
    } else {
        elem_of_page(path.last())
    }
}

/// The path after one step of the scan, and what the step yields.
///
/// With no page on the path, the scan asks for the root. Else the page at
/// hand is asked for its next element: a record is yielded, a page pointer
/// asks for that page, an error ends the step. A page with nothing left is
/// taken off the path and the page above it is asked in turn; where it is the
/// only page on the path it stays, and the scan is done.
pub open spec fn step_of_path(path: Seq<PositionedPage>, initial_page_num: usize) -> (
    Seq<PositionedPage>,
    Result<ScanStepView, DbError>,
)
    decreases path.len(),
{
    if path.len() == 0 {
        (path, Ok(ScanStepView::LoadPage(initial_page_num)))
    } else {
        let moved = path_after_elem(path);
        match elem_of_path(path) {
            Err(e) => (moved, Err(e)),
            Ok(Some(ScannerElemView::PagePointer(pointer))) => (
                moved,
                Ok(ScanStepView::LoadPage(pointer as usize)),
            ),
            Ok(Some(ScannerElemView::Cursor(record))) => (moved, Ok(ScanStepView::Record(record))),
            Ok(None) => if path.len() > 1 {
                step_of_path(path.drop_last(), initial_page_num)
            } else {
                (path, Ok(ScanStepView::Done))
            },
        }
    }
}

/// The state of a scan: the root to begin at and the path from the root to
/// the page at hand, each page with the index of its next cell.
#[derive(Debug)]
pub struct Scanner {
    pub initial_page_num: usize,
    pub page_stack: Vec<PositionedPage>,
}

impl Scanner {
    /// A scan of the table rooted at page `initial_page_num`, not yet begun.
    pub fn new(initial_page_num: usize) -> (res: Scanner)
        ensures
            res.initial_page_num == initial_page_num,
            res.page_stack@.len() == 0,
    {
        Scanner { initial_page_num, page_stack: Vec::new() }
    }

    /// Puts `page` on the path as the page at hand, at its first cell.
    pub fn push_page(&mut self, page: Page)
        ensures
            final(self).initial_page_num == old(self).initial_page_num,
            final(self).page_stack@ == old(self).page_stack@.push(
                PositionedPage { page, cell_num: 0 },
            ),
    {
        self.page_stack.push(PositionedPage { page, cell_num: 0 });
    }

    /// Asks the page at hand for its next element and moves past it. With no
    /// page on the path there is no element.
    ///
    /// Fails as the parsing of a record's header does; the position has then
    /// moved past the record all the same.
    pub fn next_elem(&mut self) -> (res: Result<Option<ScannerElem>, DbError>)
        ensures
            final(self).initial_page_num == old(self).initial_page_num,
            final(self).page_stack@ == path_after_elem(old(self).page_stack@),
            match elem_of_path(old(self).page_stack@) {
                Ok(Some(view)) => res matches Ok(Some(elem)) && elem@ == view,
                Ok(None) => res matches Ok(None),
                Err(e) => res matches Err(err) && err == e,
            },
    {
        let depth: usize = self.page_stack.len();
        if depth == 0 {
            return Ok(None);
        }
        let pos_page = &mut self.page_stack[depth - 1];
        if let Some(page_pointer) = pos_page.next_page_pointer() {
            return Ok(Some(ScannerElem::PagePointer(page_pointer)));
        }
        let cell = match pos_page.next_cell() {
            Some(cell) => cell,
            None => {
                return Ok(None);
            },
        };
        match cell {
            Cell::TableLeaf(leaf) => {
                let header = match RecordHeader::parse(leaf.payload.as_slice()) {
                    Ok(header) => header,
                    Err(e) => {
                        return Err(e);
                    },
                };
                let payload = slice_to_vec(leaf.payload.as_slice());
                Ok(Some(ScannerElem::Cursor(Cursor::new(header, payload))))
            },
            Cell::TableInterior(interior) => Ok(
                Some(ScannerElem::PagePointer(interior.left_child_page)),
            ),
        }
    }

    /// Takes one step of the scan: where the path is empty it asks for the
    /// root; else it takes the pages with nothing left off the path, down to
    /// the root, and yields what the first page with something left holds: a
    /// record, or the number of the page to descend into. The scan is done
    /// when the root has nothing left.
    ///
    /// The caller answers [`ScanStep::LoadPage`] by handing the page over
    /// with [`Scanner::push_page`], and calls again.
    ///
    /// Fails as the parsing of a record's header does. The path is then left
    /// as it stands, past the record.
    pub fn next_step(&mut self) -> (res: Result<ScanStep, DbError>)
        ensures
            final(self).initial_page_num == old(self).initial_page_num,
            final(self).page_stack@ == step_of_path(
                old(self).page_stack@,
                old(self).initial_page_num,
            ).0,
            match step_of_path(old(self).page_stack@, old(self).initial_page_num).1 {
                Ok(view) => res matches Ok(step) && step@ == view,
                Err(e) => res matches Err(err) && err == e,
            },
    {
        loop
            invariant
                self.initial_page_num == old(self).initial_page_num,
                step_of_path(self.page_stack@, self.initial_page_num) == step_of_path(
                    old(self).page_stack@,
                    old(self).initial_page_num,
                ),
            decreases self.page_stack@.len(),
        {
            if self.page_stack.len() == 0 {
                return Ok(ScanStep::LoadPage(self.initial_page_num));
            }
            let ghost before = self.page_stack@;
            match self.next_elem() {
                Err(e) => {
                    return Err(e);
                },
                Ok(Some(ScannerElem::Cursor(cursor))) => {
                    return Ok(ScanStep::Record(cursor));
                },
                Ok(Some(ScannerElem::PagePointer(page_pointer))) => {
                    return Ok(ScanStep::LoadPage(page_pointer as usize));
                },
                Ok(None) => {
                    assert(self.page_stack@ =~= before);
                    if self.page_stack.len() > 1 {
                        self.page_stack.pop();
                    } else {
                        return Ok(ScanStep::Done);
                    }
                },
            }
        }
    }
}

} // verus!
