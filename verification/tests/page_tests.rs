use sqlr::error::DbError;
use sqlr::page::cell::{Cell, TableInteriorCell, TableLeafCell};
use sqlr::page::page::{Page, HEADER_SIZE};
use sqlr::page::page_header::PageHeader;
use sqlr::page::page_type::PageType;
use sqlr::page::positioned_page::PositionedPage;

#[test]
fn page_parse_page_tests() -> () {
    assert!(Page::parse(&[12], 0).is_err());
    let buffer = [
        // page header w/ 1 as cell count
        13, 0, 12, 0, 1, 0, 0, 0, // cell pointer
        0, 10, // leaf cell (size, row id, payload)
        10, 2, 127,
    ];
    let res = Page::parse(&buffer, 0);
    assert!(res.is_ok());
    let expected = Page {
        header: PageHeader::TableLeafPageHeader {
            first_freeblock: 12,
            cell_count: 1,
            cell_content_offset: 65536,
            fragmented_bytes_count: 0,
        },
        cell_pointers: vec![10],
        cells: vec![TableLeafCell {
            size: 10,
            row_id: 2,
            payload: vec![127],
        }
        .into()],
    };
    assert_eq!(expected, res.unwrap());
}

#[test]
fn page_parse_table_leaf_page_tests() -> () {
    assert!(Page::parse(&[12], 0).is_err());
    let buffer = [
        // page header w/ 1 as cell count
        13, 0, 12, 0, 1, 0, 0, 0, // cell pointer
        0, 10, // leaf cell (size, row id, payload)
        10, 2, 127,
    ];
    let res = Page::parse(&buffer, 0);
    assert!(res.is_ok());
    let expected = Page {
        header: PageHeader::TableLeafPageHeader {
            first_freeblock: 12,
            cell_count: 1,
            cell_content_offset: 65536,
            fragmented_bytes_count: 0,
        },
        cell_pointers: vec![10],
        cells: vec![TableLeafCell {
            size: 10,
            row_id: 2,
            payload: vec![127],
        }
        .into()],
    };
    assert_eq!(expected, res.unwrap());
}

#[test]
fn page_parse_cell_pointers_test() -> () {
    assert_eq!(
        vec![65535],
        Page::parse_cell_pointers(&[255, 255], 1, 0).unwrap()
    );
    assert_eq!(
        vec![65535],
        Page::parse_cell_pointers(&[255, 255], 2, 0).unwrap()
    );
    assert_eq!(
        vec![65435],
        Page::parse_cell_pointers(&[255, 255], 1, HEADER_SIZE as u16).unwrap()
    );
}

#[test]
fn page_parse_page_header_tests() -> () {
    // first byte must be 13 for a table b-tree leaf
    assert!(PageHeader::parse(&[12]).is_err());
    assert!(PageHeader::parse(&[12, 0, 12, 0, 11, 0, 10, 0]).is_err());
    let res = PageHeader::parse(&[13, 0, 12, 0, 11, 0, 0, 0]);
    assert!(res.is_ok());
    let expected = PageHeader::TableLeafPageHeader {
        first_freeblock: 12,
        cell_count: 11,
        cell_content_offset: 65536,
        fragmented_bytes_count: 0,
    };
    assert_eq!(expected, res.unwrap());
}

#[test]
fn page_parse_table_leaf_cell_tests() -> () {
    let size = 10;
    let row_id = 2;
    let payload = 127;
    let input = [size, row_id, payload];
    let res = TableLeafCell::parse(&input);
    let expected = TableLeafCell {
        size: size as i64,
        row_id: row_id as i64,
        payload: vec![payload],
    };
    assert!(res.is_ok());
    assert_eq!(Cell::TableLeaf(expected), res.unwrap());
}

#[test]
fn page_parse_page_type_tests() -> () {
    assert!(PageType::parse(&[12]).is_err());
    let res = PageType::parse(&[13]);
    assert!(res.is_ok());
    assert_eq!(res.unwrap(), PageType::TableLeaf);
}

#[test]
fn page_header_accessor_tests() -> () {
    let leaf = PageHeader::TableLeafPageHeader {
        first_freeblock: 12,
        cell_count: 1,
        cell_content_offset: 65536,
        fragmented_bytes_count: 0,
    };
    let interior = PageHeader::TableInteriorPageHeader {
        first_freeblock: 12,
        cell_count: 1,
        cell_content_offset: 65536,
        fragmented_bytes_count: 0,
        rightmost_pointer: 12,
    };
    assert_eq!(leaf.cell_content_offset(), 65536);
    assert_eq!(interior.cell_content_offset(), 65536);
    assert_eq!(leaf.cell_count(), 1);
    assert_eq!(interior.cell_count(), 1);
    assert_eq!(leaf.first_freeblock(), 12);
    assert_eq!(interior.first_freeblock(), 12);
    assert_eq!(leaf.fragmented_bytes_count(), 0);
    assert_eq!(interior.fragmented_bytes_count(), 0);
    assert_eq!(leaf.rightmost_pointer(), None);
    assert_eq!(interior.rightmost_pointer(), Some(12));
    assert_eq!(leaf.byte_size(), 8);
    assert_eq!(interior.byte_size(), 12);
}

#[test]
fn page_header_parse_page_header_tests() -> () {
    // first byte must be 13 for a table b-tree leaf
    assert!(PageHeader::parse(&[12]).is_err());
    assert!(PageHeader::parse(&[12, 0, 12, 0, 11, 0, 10, 0]).is_err());
    assert_eq!(
        PageHeader::TableLeafPageHeader {
            first_freeblock: 12,
            cell_count: 11,
            cell_content_offset: 65536,
            fragmented_bytes_count: 0,
        },
        PageHeader::parse(&[13, 0, 12, 0, 11, 0, 0, 0]).unwrap()
    );
    // interior
    assert_eq!(
        PageHeader::TableInteriorPageHeader {
            first_freeblock: 12,
            cell_count: 11,
            cell_content_offset: 65536,
            fragmented_bytes_count: 0,
            rightmost_pointer: 16909060,
        },
        PageHeader::parse(&[5, 0, 12, 0, 11, 0, 0, 0, 1, 2, 3, 4]).unwrap(),
    );
    assert_eq!(
        PageHeader::TableInteriorPageHeader {
            first_freeblock: 12,
            cell_count: 11,
            cell_content_offset: 65536,
            fragmented_bytes_count: 0,
            rightmost_pointer: 0,
        },
        PageHeader::parse(&[5, 0, 12, 0, 11, 0, 0, 0]).unwrap(),
    );
}

#[test]
fn next_page_pointer_tests() -> () {
    let leaf_header = PageHeader::TableLeafPageHeader {
        first_freeblock: 0,
        cell_count: 2,
        cell_content_offset: 0,
        fragmented_bytes_count: 0,
    };
    let leaf_page = Page {
        header: leaf_header,
        cell_pointers: vec![],
        cells: vec![],
    };
    let mut leaf_p_page = PositionedPage { page: leaf_page, cell_num: 0 };
    assert_eq!(None, leaf_p_page.next_page_pointer());
    assert_eq!(0, leaf_p_page.cell_num);

    let rightmost_pointer = 12;
    let c1: Cell = TableInteriorCell {
        left_child_page: 1,
        key: 12,
    }
    .into();
    let int_header = PageHeader::TableInteriorPageHeader {
        first_freeblock: 0,
        cell_count: 2,
        cell_content_offset: 0,
        fragmented_bytes_count: 0,
        rightmost_pointer: rightmost_pointer,
    };
    let int_page = Page {
        header: int_header,
        cell_pointers: vec![],
        cells: vec![c1],
    };
    let mut int_p_page = PositionedPage { page: int_page.clone(), cell_num: 1 };
    assert_eq!(Some(rightmost_pointer), int_p_page.next_page_pointer());
    assert_eq!(2, int_p_page.cell_num);
    let mut int_p_page_2 = PositionedPage { page: int_page, cell_num: 0 };
    assert_eq!(None, int_p_page_2.next_page_pointer());
    assert_eq!(0, int_p_page_2.cell_num);
}

#[test]
fn next_cell_leaf_tests() -> () {
    let c1: Cell = TableLeafCell {
        size: 2,
        row_id: 12,
        payload: vec![127, 128],
    }
    .into();
    let c2: Cell = TableLeafCell {
        size: 3,
        row_id: 13,
        payload: vec![127, 128, 129],
    }
    .into();
    let page = Page {
        header: PageHeader::TableLeafPageHeader {
            first_freeblock: 0,
            cell_count: 2,
            cell_content_offset: 0,
            fragmented_bytes_count: 0,
        },
        cell_pointers: vec![1, 10, 12],
        cells: vec![c1.clone(), c2.clone()],
    };
    let mut p_page = PositionedPage { page: page, cell_num: 0 };
    let res1 = p_page.next_cell().cloned();
    let res2 = p_page.next_cell().cloned();
    let res3 = p_page.next_cell();
    assert_eq!(Some(c1), res1);
    assert_eq!(Some(c2), res2);
    assert_eq!(None, res3);
    assert_eq!(2, p_page.cell_num);
}

#[test]
fn next_cell_interior_tests() -> () {
    let c1: Cell = TableInteriorCell {
        left_child_page: 1,
        key: 12,
    }
    .into();
    let c2: Cell = TableInteriorCell {
        left_child_page: 2,
        key: 13,
    }
    .into();
    let page = Page {
        header: PageHeader::TableInteriorPageHeader {
            first_freeblock: 0,
            cell_count: 2,
            cell_content_offset: 0,
            fragmented_bytes_count: 0,
            rightmost_pointer: 12,
        },
        cell_pointers: vec![1, 10, 12],
        cells: vec![c1.clone(), c2.clone()],
    };
    let mut p_page = PositionedPage { page: page, cell_num: 0 };
    let res1 = p_page.next_cell().cloned();
    let res2 = p_page.next_cell().cloned();
    let res3 = p_page.next_cell();
    assert_eq!(Some(c1), res1);
    assert_eq!(Some(c2), res2);
    assert_eq!(None, res3);
    assert_eq!(2, p_page.cell_num);
}

#[test]
fn cell_parse_table_leaf_cell_tests() -> () {
    let size = 10;
    let row_id = 2;
    let payload = 127;
    let input = [size, row_id, payload];
    let res = TableLeafCell::parse(&input);
    let expected = Cell::TableLeaf(TableLeafCell {
        size: size as i64,
        row_id: row_id as i64,
        payload: vec![payload],
    });
    assert!(res.is_ok());
    assert_eq!(expected, res.unwrap());
}

#[test]
fn parse_table_interior_cell_tests() -> () {
    let left_child_page = 10;
    let key = 127;
    let input = [0, 0, 0, left_child_page, key];
    let res = TableInteriorCell::parse(&input);
    let expected = Cell::TableInterior(TableInteriorCell {
        left_child_page: left_child_page as u32,
        key: key as i64,
    });
    assert!(res.is_ok());
    assert_eq!(expected, res.unwrap());
}

#[test]
fn parse_interior_cells_tests() -> () {
    let buffer = [
        1, 0, 0, 0, 127, // interior cell 1
        0, 0, 0, 1, 12, // interior cell 2
    ];
    let cell_pointers = [0, 5];
    let res = Page::parse_cells(&buffer, &cell_pointers, PageType::TableInterior);
    assert!(res.is_ok());
    let expected: Vec<Cell> = vec![
        TableInteriorCell {
            left_child_page: 16777216,
            key: 127,
        }
        .into(),
        TableInteriorCell {
            left_child_page: 1,
            key: 12,
        }
        .into(),
    ];
    assert_eq!(expected, res.unwrap());
}

#[test]
fn parse_leaf_cells_tests() -> () {
    let buffer = [
        2, 1, 127, 128, // leaf cell 1
        1, 2, 127, // leaf cell 2
    ];
    let cell_pointers = [0, 3];
    let res = Page::parse_cells(&buffer, &cell_pointers, PageType::TableLeaf);
    assert!(res.is_ok());
    let expected: Vec<Cell> = vec![
        TableLeafCell {
            size: 2,
            row_id: 1,
            payload: vec![127, 128],
        }
        .into(),
        TableLeafCell {
            size: 1,
            row_id: 2,
            payload: vec![127],
        }
        .into(),
    ];
    assert_eq!(expected, res.unwrap());
}

#[test]
fn parse_table_interior_page_tests() -> () {
    assert!(Page::parse(&[12], 0).is_err());
    let buffer = [
        // page header w/ 2 as cell count
        5, 0, 12, 0, 2, 0, 0, 0, 0, 0, 0, 21, // cell pointer
        0, 16, 0, 21, // interior cell (left_child_page, key)
        0, 0, 0, 1, 10, 1, 0, 0, 0, 129, 0,
    ];
    let res = Page::parse(&buffer, 0);
    assert!(res.is_ok());
    let expected = Page {
        header: PageHeader::TableInteriorPageHeader {
            first_freeblock: 12,
            cell_count: 2,
            cell_content_offset: 65536,
            fragmented_bytes_count: 0,
            rightmost_pointer: 21,
        },
        cell_pointers: vec![16, 21],
        cells: vec![
            TableInteriorCell {
                left_child_page: 1,
                key: 10,
            }
            .into(),
            TableInteriorCell {
                left_child_page: 16777216,
                key: 128,
            }
            .into(),
        ],
    };
    assert_eq!(expected, res.unwrap());
}

#[test]
fn page_type_parse_page_type_tests() -> () {
    assert!(PageType::parse(&[12]).is_err());
    let res = PageType::parse(&[13]);
    assert!(res.is_ok());
    assert_eq!(res.unwrap(), PageType::TableLeaf);
}

#[test]
fn unknown_page_type_rejected() {
    assert_eq!(
        Err(DbError::UnknownPageType(12)),
        Page::parse(&[12, 0, 0, 0, 0, 0, 0, 0], 0)
    );
    assert_eq!(Err(DbError::UnknownPageType(10)), PageType::parse(&[10]));
    assert_eq!(Err(DbError::UnknownPageType(2)), PageType::parse(&[2, 5, 13]));
    assert_eq!(Ok(PageType::TableInterior), PageType::parse(&[5]));
    assert_eq!(Err(DbError::ShortHeader), PageType::parse(&[]));
}

#[test]
fn minimal_leaf_page() {
    let buffer = [13, 0, 0, 0, 1, 0, 0, 0, 0, 10, 10, 2, 127];
    let expected = Page {
        header: PageHeader::TableLeafPageHeader {
            first_freeblock: 0,
            cell_count: 1,
            cell_content_offset: 65536,
            fragmented_bytes_count: 0,
        },
        cell_pointers: vec![10],
        cells: vec![Cell::TableLeaf(TableLeafCell {
            size: 10,
            row_id: 2,
            payload: vec![127],
        })],
    };
    assert_eq!(Ok(expected), Page::parse(&buffer, 0));
}

#[test]
fn short_header_is_refused() {
    assert_eq!(Err(DbError::ShortHeader), PageHeader::parse(&[]));
    assert_eq!(Err(DbError::ShortHeader), PageHeader::parse(&[13, 0, 0, 0, 0, 0]));
    // The length is looked at before the tag.
    assert_eq!(Err(DbError::ShortHeader), PageHeader::parse(&[12, 0, 0, 0, 0, 0]));
    assert_eq!(Err(DbError::ShortHeader), Page::parse(&[], 0));
    // Page 1 begins with the file header: 106 bytes leave six for the page.
    assert_eq!(Err(DbError::ShortHeader), Page::parse(&[13; 106], 1));
    assert_eq!(Err(DbError::ShortHeader), Page::parse(&[13; 50], 1));
}

#[test]
fn header_of_seven_bytes() {
    assert_eq!(
        Ok(PageHeader::TableLeafPageHeader {
            first_freeblock: 0x0102,
            cell_count: 0x0304,
            cell_content_offset: 0x0506,
            fragmented_bytes_count: 0,
        }),
        PageHeader::parse(&[13, 1, 2, 3, 4, 5, 6])
    );
    assert_eq!(
        Ok(PageHeader::TableInteriorPageHeader {
            first_freeblock: 0x0102,
            cell_count: 0x0304,
            cell_content_offset: 0x0506,
            fragmented_bytes_count: 7,
            rightmost_pointer: 0x0809,
        }),
        PageHeader::parse(&[5, 1, 2, 3, 4, 5, 6, 7, 8, 9])
    );
}

#[test]
fn cell_content_offset_zero_stands_for_65536() {
    let header = PageHeader::parse(&[13, 0, 0, 0, 0, 0, 0, 9]).unwrap();
    assert_eq!(65536, header.cell_content_offset());
    assert_eq!(9, header.fragmented_bytes_count());
    let header = PageHeader::parse(&[13, 0, 0, 0, 0, 0xff, 0xff, 0]).unwrap();
    assert_eq!(65535, header.cell_content_offset());
}

fn page_one(content: &[u8]) -> Vec<u8> {
    let mut buffer = vec![0u8; 100];
    buffer.extend_from_slice(content);
    buffer
}

#[test]
fn page_one_cell_pointers_are_lowered_by_100() {
    let content = [
        13, 0, 0, 0, 2, 0, 0, 0, // header: two cells
        0, 112, 0, 115, // cell pointers, counted from the start of the page
        1, 7, 42, // cell at 12 of the content
        2, 8, 43, 44, // cell at 15 of the content
    ];
    let page = Page::parse(&page_one(&content), 1).unwrap();
    assert_eq!(vec![12, 15], page.cell_pointers);
    assert_eq!(
        vec![
            Cell::TableLeaf(TableLeafCell { size: 1, row_id: 7, payload: vec![42] }),
            Cell::TableLeaf(TableLeafCell { size: 2, row_id: 8, payload: vec![43, 44] }),
        ],
        page.cells
    );
    // The same content as another page: the pointers stand as they are.
    let content = [
        13, 0, 0, 0, 2, 0, 0, 0, // header: two cells
        0, 12, 0, 15, // cell pointers
        1, 7, 42, // cell at 12
        2, 8, 43, 44, // cell at 15
    ];
    for page_num in [0usize, 2, 3, 100] {
        let page = Page::parse(&content, page_num).unwrap();
        assert_eq!(vec![12, 15], page.cell_pointers);
        assert_eq!(2, page.cells.len());
    }
}

#[test]
fn cell_pointer_outside_the_page_is_refused() {
    // On page 1 a pointer below 100 leads into the file header.
    let content = [13, 0, 0, 0, 1, 0, 0, 0, 0, 99, 1, 7, 42];
    assert_eq!(Err(DbError::CellDecodeError), Page::parse(&page_one(&content), 1));
    assert_eq!(
        Err(DbError::CellDecodeError),
        Page::parse_cell_pointers(&[0, 100, 0, 99], 2, 100)
    );
    assert_eq!(Ok(vec![0]), Page::parse_cell_pointers(&[0, 100, 0, 99], 1, 100));
    // A pointer past the end of the content.
    let content = [13, 0, 0, 0, 1, 0, 0, 0, 0, 14, 1, 7, 42];
    assert_eq!(Err(DbError::CellDecodeError), Page::parse(&content, 0));
    assert_eq!(
        Err(DbError::CellDecodeError),
        Page::parse_cells(&[1, 2, 3], &[0, 4], PageType::TableLeaf)
    );
    // A pointer to the very end leads to an empty cell.
    let content = [13, 0, 0, 0, 1, 0, 0, 0, 0, 13, 1, 7, 42];
    let page = Page::parse(&content, 0).unwrap();
    assert_eq!(
        vec![Cell::TableLeaf(TableLeafCell { size: 0, row_id: 0, payload: vec![] })],
        page.cells
    );
}

#[test]
fn fewer_cell_pointers_than_declared() {
    // Five cells declared, room for one pointer and a half.
    let content = [13, 0, 0, 0, 5, 0, 0, 0, 0, 8, 0];
    let page = Page::parse(&content, 0).unwrap();
    assert_eq!(5, page.header.cell_count());
    assert_eq!(vec![8], page.cell_pointers);
    assert_eq!(1, page.cells.len());
    assert_eq!(Ok(vec![]), Page::parse_cell_pointers(&[7], 3, 0));
    assert_eq!(Ok(vec![]), Page::parse_cell_pointers(&[7, 7], 0, 0));
    // An interior header that the buffer cuts short leaves no pointers.
    let page = Page::parse(&[5, 0, 0, 0, 3, 0, 0, 0, 0, 0], 0).unwrap();
    assert_eq!(0, page.cell_pointers.len());
    assert_eq!(0, page.cells.len());
}

#[test]
fn cells_keep_the_order_of_the_pointers() {
    let buffer = [
        2, 1, 127, 128, // leaf cell at 0
        1, 2, 127, // leaf cell at 4
    ];
    let cells = Page::parse_cells(&buffer, &[4, 0, 4], PageType::TableLeaf).unwrap();
    assert_eq!(
        vec![
            Cell::TableLeaf(TableLeafCell { size: 1, row_id: 2, payload: vec![127] }),
            Cell::TableLeaf(TableLeafCell { size: 2, row_id: 1, payload: vec![127, 128] }),
            Cell::TableLeaf(TableLeafCell { size: 1, row_id: 2, payload: vec![127] }),
        ],
        cells
    );
}

#[test]
fn leaf_cell_payload_sizes() {
    // The declared size, where the buffer holds it.
    assert_eq!(
        Ok(Cell::TableLeaf(TableLeafCell { size: 2, row_id: 300, payload: vec![7, 8] })),
        TableLeafCell::parse(&[2, 0x82, 0x2c, 7, 8, 9])
    );
    // A negative size: all that is left.
    let mut buffer = vec![0xff; 9];
    buffer.extend_from_slice(&[5, 1, 2, 3]);
    assert_eq!(
        Ok(Cell::TableLeaf(TableLeafCell { size: -1, row_id: 5, payload: vec![1, 2, 3] })),
        TableLeafCell::parse(&buffer)
    );
    assert_eq!(
        Ok(Cell::TableLeaf(TableLeafCell { size: 0, row_id: 0, payload: vec![] })),
        TableLeafCell::parse(&[])
    );
}

#[test]
fn interior_cell_cut_short() {
    assert_eq!(
        Ok(Cell::TableInterior(TableInteriorCell { left_child_page: 0x0102, key: 3 })),
        TableInteriorCell::parse(&[1, 2, 3])
    );
    assert_eq!(
        Ok(Cell::TableInterior(TableInteriorCell { left_child_page: 0, key: 0 })),
        TableInteriorCell::parse(&[])
    );
    assert_eq!(
        Ok(Cell::TableInterior(TableInteriorCell { left_child_page: 0x01020304, key: -1 })),
        TableInteriorCell::parse(&[1, 2, 3, 4, 255, 255, 255, 255, 255, 255, 255, 255, 255, 9])
    );
}

#[test]
fn rightmost_pointer_is_handed_out_once() {
    let page = Page {
        header: PageHeader::TableInteriorPageHeader {
            first_freeblock: 0,
            cell_count: 1,
            cell_content_offset: 0,
            fragmented_bytes_count: 0,
            rightmost_pointer: 77,
        },
        cell_pointers: vec![0],
        cells: vec![Cell::TableInterior(TableInteriorCell { left_child_page: 5, key: 1 })],
    };
    let mut positioned = PositionedPage { page, cell_num: 0 };
    assert_eq!(None, positioned.next_page_pointer());
    assert!(positioned.next_cell().is_some());
    assert_eq!(1, positioned.cell_num);
    assert_eq!(Some(77), positioned.next_page_pointer());
    assert_eq!(2, positioned.cell_num);
    assert_eq!(None, positioned.next_page_pointer());
    assert_eq!(None, positioned.next_cell());
    assert_eq!(None, positioned.next_page_pointer());
    assert_eq!(2, positioned.cell_num);
}

#[test]
fn parse_page_tests() -> () {
    assert!(Page::parse(&[12], 0).is_err());
    let buffer = [
        // page header w/ 1 as cell count
        13, 0, 12, 0, 1, 0, 0, 0, // cell pointer
        0, 10, // leaf cell (size, row id, payload)
        10, 2, 127,
    ];
    let res = Page::parse(&buffer, 0);
    assert!(res.is_ok());
    let expected = Page {
        header: PageHeader::TableLeafPageHeader {
            first_freeblock: 12,
            cell_count: 1,
            cell_content_offset: 65536,
            fragmented_bytes_count: 0,
        },
        cell_pointers: vec![10],
        cells: vec![Cell::TableLeaf(TableLeafCell {
            size: 10,
            row_id: 2,
            payload: vec![127],
        })],
    };
    assert_eq!(expected, res.unwrap());
}

#[test]
fn parse_table_leaf_page_tests() -> () {
    assert!(Page::parse(&[12], 0).is_err());
    let buffer = [
        // page header w/ 1 as cell count
        13, 0, 12, 0, 1, 0, 0, 0, // cell pointer
        0, 10, // leaf cell (size, row id, payload)
        10, 2, 127,
    ];
    let res = Page::parse(&buffer, 0);
    assert!(res.is_ok());
    let expected = Page {
        header: PageHeader::TableLeafPageHeader {
            first_freeblock: 12,
            cell_count: 1,
            cell_content_offset: 65536,
            fragmented_bytes_count: 0,
        },
        cell_pointers: vec![10],
        cells: vec![Cell::TableLeaf(TableLeafCell {
            size: 10,
            row_id: 2,
            payload: vec![127],
        })],
    };
    assert_eq!(expected, res.unwrap());
}

#[test]
fn parse_cell_pointers_test() -> () {
    assert_eq!(
        vec![65535],
        Page::parse_cell_pointers(&[255, 255], 1, 0).unwrap()
    );
    assert_eq!(
        vec![65535],
        Page::parse_cell_pointers(&[255, 255], 2, 0).unwrap()
    );
    assert_eq!(
        vec![65435],
        Page::parse_cell_pointers(&[255, 255], 1, HEADER_SIZE as u16).unwrap()
    );
}
