//! Read-only decoding of the SQLite 3 database file format: the file
//! header, table B-tree pages and their cells, records and their fields, and
//! the depth-first scan of a table.

pub mod cursor;
pub mod db;
pub mod error;
pub mod page;
pub mod record;
pub mod scanner;
pub mod traversal;
pub mod utils;
pub mod value;
pub mod varint;
