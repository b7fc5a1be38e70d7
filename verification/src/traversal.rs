//! The order in which a scan yields the records of a table.
//!
//! A scan is run by taking steps and handing over the pages that the steps
//! ask for. This module says what such a run yields, what the records of a
//! tree of pages are when they are read in order, and that the two agree.

use crate::cursor::CursorView;
use crate::error::DbError;
use crate::page::cell::CellView;
use crate::page::page::Page;
use crate::page::positioned_page::PositionedPage;
use crate::record::record_header::record_header_spec;
use crate::scanner::{step_of_path, ScanStepView};
use vstd::prelude::*;

verus! {

/// What a run of a scan has yielded, and whether it came to the end of the
/// table.
pub struct ScanRun {
    pub records: Seq<CursorView>,
    pub finished: bool,
}

/// The run `run` with `records` in front of what it yields.
pub open spec fn after_records(records: Seq<CursorView>, run: ScanRun) -> ScanRun {
    ScanRun { records: records + run.records, finished: run.finished }
}

/// `page` at its first cell.
pub open spec fn at_start(page: Page) -> PositionedPage {
    PositionedPage { page, cell_num: 0 }
}

/// `page` with nothing left to give: past its cells and, on an interior
/// page, past its rightmost pointer.
pub open spec fn exhausted(page: Page) -> PositionedPage {
    PositionedPage {
        page,
        cell_num: if page.header.is_interior() {
            (page.cells@.len() + 1) as usize
        } else {
            page.cells@.len() as usize
        },
    }
}

/// What at most `fuel` steps of a scan yield, from the path `path` on, where
/// each page that a step asks for is taken from `pages` and put on the path.
/// The run ends early, unfinished, on an error and on a page that `pages`
/// does not hold.
pub open spec fn scan_run(
    pages: Map<usize, Page>,
    path: Seq<PositionedPage>,
    initial_page_num: usize,
    fuel: nat,
) -> ScanRun
    decreases fuel,
{
    if fuel == 0 {
        ScanRun { records: Seq::empty(), finished: false }
    } else {
        let step = step_of_path(path, initial_page_num);
        match step.1 {
            Err(_) => ScanRun { records: Seq::empty(), finished: false },
            Ok(ScanStepView::Done) => ScanRun { records: Seq::empty(), finished: true },
            Ok(ScanStepView::Record(record)) => after_records(
                seq![record],
                scan_run(pages, step.0, initial_page_num, (fuel - 1) as nat),
            ),
            Ok(ScanStepView::LoadPage(page_num)) => if pages.contains_key(page_num) {
                scan_run(
                    pages,
                    step.0.push(at_start(pages[page_num])),
                    initial_page_num,
                    (fuel - 1) as nat,
                )
            } else {
                ScanRun { records: Seq::empty(), finished: false }
            },
        }
    }
}

/// Whether what `page` holds from cell `k` on is a tree of pages of `pages`,
/// at most `depth` levels below `page`, that a scan can read: every record
/// has a header that parses, and every page pointer, the rightmost pointer of
/// an interior page included, leads to a page of `pages` of which the same
/// holds one level further down.
pub open spec fn readable_from(pages: Map<usize, Page>, page: Page, k: nat, depth: nat) -> bool
    decreases depth, page.cells@.len() - k,
{
    &&& page.cells@.len() < usize::MAX
    &&& if k < page.cells@.len() {
        &&& match page.cells@[k as int]@ {
            CellView::TableLeaf(leaf) => record_header_spec(leaf.payload) is Ok,
            CellView::TableInterior(interior) => {
                &&& depth > 0
                &&& pages.contains_key(interior.left_child_page as usize)
                &&& readable_from(
                    pages,
                    pages[interior.left_child_page as usize],
                    0,
                    (depth - 1) as nat,
                )
            },
        }
        &&& readable_from(pages, page, k + 1, depth)
    } else {
        page.header.is_interior() ==> {
            &&& depth > 0
            &&& pages.contains_key(page.header.rightmost_pointer().unwrap() as usize)
            &&& readable_from(
                pages,
                pages[page.header.rightmost_pointer().unwrap() as usize],
                0,
                (depth - 1) as nat,
            )
        }
    }
}

/// The records of what `page` holds from cell `k` on, in order: for each
/// cell in turn, the record of a leaf cell, or all the records below the
/// left child of an interior cell; and after the cells of an interior page,
/// all the records below its rightmost pointer.
pub open spec fn records_from(pages: Map<usize, Page>, page: Page, k: nat, depth: nat) -> Seq<
    CursorView,
>
    decreases depth, page.cells@.len() - k,
{
    if k < page.cells@.len() {
        (match page.cells@[k as int]@ {
            CellView::TableLeaf(leaf) => seq![
                CursorView {
                    fields: record_header_spec(leaf.payload).unwrap(),
                    payload: leaf.payload,
                },
            ],
            CellView::TableInterior(interior) => if depth > 0 {
                records_from(
                    pages,
                    pages[interior.left_child_page as usize],
                    0,
                    (depth - 1) as nat,
                )
            } else {
                Seq::empty()
            },
        }) + records_from(pages, page, k + 1, depth)
    } else if page.header.is_interior() && depth > 0 {
        records_from(
            pages,
            pages[page.header.rightmost_pointer().unwrap() as usize],
            0,
            (depth - 1) as nat,
        )
    } else {
        Seq::empty()
    }
}

/// The number of steps that a scan takes to read what `page` holds from
/// cell `k` on: one for each record and one for each page pointer.
pub open spec fn steps_from(pages: Map<usize, Page>, page: Page, k: nat, depth: nat) -> nat
    decreases depth, page.cells@.len() - k,
{
    if k < page.cells@.len() {
        (match page.cells@[k as int]@ {
            CellView::TableLeaf(leaf) => 1nat,
            CellView::TableInterior(interior) => if depth > 0 {
                1 + steps_from(
                    pages,
                    pages[interior.left_child_page as usize],
                    0,
                    (depth - 1) as nat,
                )
            } else {
                0
            },
        }) + steps_from(pages, page, k + 1, depth)
    } else if page.header.is_interior() && depth > 0 {
        1 + steps_from(
            pages,
            pages[page.header.rightmost_pointer().unwrap() as usize],
            0,
            (depth - 1) as nat,
        )
    } else {
        0
    }
}

/// A page of a readable tree has fewer than `usize::MAX` cells.
proof fn lemma_readable_page_len(pages: Map<usize, Page>, page: Page, k: nat, depth: nat)
    requires
        readable_from(pages, page, k, depth),
    ensures
        page.cells@.len() < usize::MAX,
{
}

/// A page with nothing left, on a path above which another page stands, is
/// passed over: the scan goes on as if it were not on the path.
proof fn lemma_exhausted_page_is_passed(
    pages: Map<usize, Page>,
    below: Seq<PositionedPage>,
    page: Page,
    initial_page_num: usize,
    fuel: nat,
)
    requires
        below.len() > 0,
        page.cells@.len() < usize::MAX,
    ensures
        scan_run(pages, below.push(exhausted(page)), initial_page_num, fuel) == scan_run(
            pages,
            below,
            initial_page_num,
            fuel,
        ),
{
    let path = below.push(exhausted(page));
    assert(path.drop_last() =~= below);
    assert(path.last() == exhausted(page));
    assert(step_of_path(path, initial_page_num) == step_of_path(below, initial_page_num));
}

/// A scan that stands at cell `k` of a page reads what the page holds from
/// there on, in order, and then stands at the end of the page.
proof fn lemma_scan_reads_from(
    pages: Map<usize, Page>,
    below: Seq<PositionedPage>,
    page: Page,
    k: nat,
    depth: nat,
    initial_page_num: usize,
    fuel: nat,
)
    requires
        k <= page.cells@.len(),
        readable_from(pages, page, k, depth),
    ensures
        scan_run(
            pages,
            below.push(PositionedPage { page, cell_num: k as usize }),
            initial_page_num,
            fuel + steps_from(pages, page, k, depth),
        ) == after_records(
            records_from(pages, page, k, depth),
            scan_run(pages, below.push(exhausted(page)), initial_page_num, fuel),
        ),
    decreases depth, page.cells@.len() - k,
{
    let here = PositionedPage { page, cell_num: k as usize };
    let path = below.push(here);
    let end = scan_run(pages, below.push(exhausted(page)), initial_page_num, fuel);
    assert(path.drop_last() =~= below);
    assert(path.last() == here);
    let next = PositionedPage { page, cell_num: (k + 1) as usize };
    if k < page.cells@.len() {
        let later = scan_run(
            pages,
            below.push(next),
            initial_page_num,
            fuel + steps_from(pages, page, k + 1, depth),
        );
        lemma_scan_reads_from(pages, below, page, k + 1, depth, initial_page_num, fuel);
        match page.cells@[k as int]@ {
            CellView::TableLeaf(leaf) => {
                let record = CursorView {
                    fields: record_header_spec(leaf.payload).unwrap(),
                    payload: leaf.payload,
                };
                assert(step_of_path(path, initial_page_num) == (
                    below.push(next),
                    Ok::<ScanStepView, DbError>(ScanStepView::Record(record)),
                ));
                assert(seq![record] + (records_from(pages, page, k + 1, depth) + end.records)
                    =~= (seq![record] + records_from(pages, page, k + 1, depth)) + end.records);
            },
            CellView::TableInterior(interior) => {
                let child = pages[interior.left_child_page as usize];
                assert(step_of_path(path, initial_page_num) == (
                    below.push(next),
                    Ok::<ScanStepView, DbError>(
                        ScanStepView::LoadPage(interior.left_child_page as usize),
                    ),
                ));
                lemma_scan_reads_from(
                    pages,
                    below.push(next),
                    child,
                    0,
                    (depth - 1) as nat,
                    initial_page_num,
                    fuel + steps_from(pages, page, k + 1, depth),
                );
                lemma_readable_page_len(pages, child, 0, (depth - 1) as nat);
                lemma_exhausted_page_is_passed(
                    pages,
                    below.push(next),
                    child,
                    initial_page_num,
                    fuel + steps_from(pages, page, k + 1, depth),
                );
                assert(records_from(pages, child, 0, (depth - 1) as nat) + (records_from(
                    pages,
                    page,
                    k + 1,
                    depth,
                ) + end.records) =~= (records_from(pages, child, 0, (depth - 1) as nat)
                    + records_from(pages, page, k + 1, depth)) + end.records);
            },
        }
    } else if page.header.is_interior() {
        let child = pages[page.header.rightmost_pointer().unwrap() as usize];
        assert(next == exhausted(page));
        assert(step_of_path(path, initial_page_num) == (
            below.push(next),
            Ok::<ScanStepView, DbError>(
                ScanStepView::LoadPage(page.header.rightmost_pointer().unwrap() as usize),
            ),
        ));
        lemma_scan_reads_from(
            pages,
            below.push(next),
            child,
            0,
            (depth - 1) as nat,
            initial_page_num,
            fuel,
        );
        lemma_readable_page_len(pages, child, 0, (depth - 1) as nat);
        lemma_exhausted_page_is_passed(pages, below.push(next), child, initial_page_num, fuel);
    } else {
        assert(here == exhausted(page));
        assert(Seq::<CursorView>::empty() + end.records =~= end.records);
    }
}

/// A scan yields the records of a table in the order of its tree. Where
/// the page `root` of `pages` is the root of a tree of at most `depth`
/// levels that a scan can read, a run from the empty path that is handed
/// the pages of `pages` comes to the end of the table, and what it yields is
/// the records of the tree in order: below each interior cell's left child
/// before the next cell, and below the rightmost pointer last.
pub proof fn lemma_scan_yields_records_in_order(
    pages: Map<usize, Page>,
    root: usize,
    depth: nat,
)
    requires
        pages.contains_key(root),
        readable_from(pages, pages[root], 0, depth),
    ensures
        scan_run(
            pages,
            Seq::empty(),
            root,
            steps_from(pages, pages[root], 0, depth) + 2,
        ).finished,
        scan_run(
            pages,
            Seq::empty(),
            root,
            steps_from(pages, pages[root], 0, depth) + 2,
        ).records == records_from(pages, pages[root], 0, depth),
{
    let page = pages[root];
    let empty = Seq::<PositionedPage>::empty();
    let steps = steps_from(pages, page, 0, depth);
    lemma_scan_reads_from(pages, empty, page, 0, depth, root, 1);
    let last = empty.push(exhausted(page));
    assert(last.drop_last() =~= empty);
    assert(last.last() == exhausted(page));
    assert(step_of_path(last, root).1 == Ok::<ScanStepView, DbError>(
        ScanStepView::Done,
    ));
    assert(scan_run(pages, last, root, 1).finished);
    assert(scan_run(pages, last, root, 1).records =~= Seq::<CursorView>::empty());
    assert(records_from(pages, page, 0, depth) + Seq::<CursorView>::empty() =~= records_from(
        pages,
        page,
        0,
        depth,
    ));
    assert(scan_run(pages, empty, root, steps + 2) == scan_run(
        pages,
        empty.push(at_start(page)),
        root,
        1 + steps,
    ));
}

} // verus!
