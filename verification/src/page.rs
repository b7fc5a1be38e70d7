//! Table B-tree pages: their headers, their cells, the cache that holds
//! decoded pages, and a page with a position in it.

pub mod cell;
pub mod page;
pub mod page_header;
pub mod page_type;
pub mod pager;
pub mod positioned_page;
