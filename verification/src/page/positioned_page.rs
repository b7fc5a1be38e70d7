//! A page together with a position among its cells.

use crate::page::cell::Cell;
use crate::page::page::Page;
use crate::page::page_header::PageHeader;
use vstd::prelude::*;

verus! {

/// A page and the index of the cell to visit next.
///
/// On an interior page the position one past the last cell stands for the
/// rightmost pointer, and the position after that for its having been handed
/// out.
#[derive(Debug, Clone, PartialEq)]
pub struct PositionedPage {
    pub page: Page,
    pub cell_num: usize,
}

impl PositionedPage {
    /// Whether the next call of [`PositionedPage::next_page_pointer`] hands
    /// out the rightmost pointer: on an interior page, with every cell
    /// visited and the pointer not handed out yet. (The position must be
    /// able to move on, which it always can: no page has `usize::MAX` cells.)
    pub open spec fn at_rightmost_pointer(&self) -> bool {
        &&& self.page.header.is_interior()
        &&& self.cell_num == self.page.cells@.len()
        &&& self.cell_num < usize::MAX
    }

    /// Whether a cell is left to visit.
    pub open spec fn has_next_cell(&self) -> bool {
        self.cell_num < self.page.cells@.len()
    }

    /// Hands out the next cell and moves past it; `None`, with the position
    /// unchanged, where every cell has been visited.
    pub fn next_cell(&mut self) -> (res: Option<&Cell>)
        ensures
            final(self).page == old(self).page,
            old(self).has_next_cell() ==> res == Some(&old(self).page.cells@[old(self).cell_num as int])
                && final(self).cell_num == old(self).cell_num + 1,
            !old(self).has_next_cell() ==> res is None && final(self).cell_num == old(self).cell_num,
    {
        if self.cell_num < self.page.cells.len() {
            let index: usize = self.cell_num;
            self.cell_num = index + 1;
            Some(&self.page.cells[index])
        } else {
            None
        }
    }

    /// Hands out the rightmost pointer of an interior page, once: where every
    /// cell has been visited and the pointer has not been handed out, it is
    /// returned and the position moves one further. In every other state,
    /// and on a leaf page, the result is `None` and nothing changes.
    pub fn next_page_pointer(&mut self) -> (res: Option<u32>)
        ensures
            final(self).page == old(self).page,
            old(self).at_rightmost_pointer() ==> res == old(self).page.header.rightmost_pointer()
                && res is Some && final(self).cell_num == old(self).cell_num + 1,
            !old(self).at_rightmost_pointer() ==> res is None && final(self).cell_num == old(
                self,
            ).cell_num,
    {
        match self.page.header {
            PageHeader::TableInteriorPageHeader { rightmost_pointer, .. } => {
                if self.cell_num == self.page.cells.len() && self.cell_num < usize::MAX {
                    self.cell_num = self.cell_num + 1;
                    Some(rightmost_pointer)
                } else {
                    None
                }
            },
            PageHeader::TableLeafPageHeader { .. } => None,
        }
    }
}

/// The rightmost pointer of an interior page is handed out exactly once: a
/// page that has just handed it out is in a state in which it hands out
/// neither the pointer again nor a cell.
pub proof fn lemma_rightmost_pointer_once(before: PositionedPage, after: PositionedPage)
    requires
        before.at_rightmost_pointer(),
        after.page == before.page,
        after.cell_num == before.cell_num + 1,
    ensures
        !after.at_rightmost_pointer(),
        !after.has_next_cell(),
{
}

} // verus!
