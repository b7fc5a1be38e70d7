//! The page cache and the rules by which pages are read into it.
//!
//! The pager decides where in the file a page lies and whether it has to be
//! read, decodes what was read and keeps it. Reading the file is left to the
//! caller: [`Pager::read_request`] says what to read, [`Pager::store`] takes
//! the bytes.

use crate::error::DbError;
use crate::page::page::{page_spec, Page, PageView};
use std::collections::HashMap;
use vstd::pervasive::unreached;
use vstd::prelude::*;

verus! {

broadcast use vstd::std_specs::hash::group_hash_axioms;

/// The offset in the file at which page `n` is read: past the file header
/// and the `n - 1` pages before it for `n` from 1 on, and 0 for page 0.
pub open spec fn page_offset(n: usize, page_size: usize) -> nat {
    if n >= 1 {
        (100 + (n - 1) * page_size) as nat
    } else {
        0
    }
}

/// What is to be read from the file for a page.
#[derive(Debug, Clone, Copy, PartialEq, Eq)]
pub struct ReadRequest {
    /// The offset in the file to read from.
    pub offset: u64,
    /// The number of bytes to read: the page size.
    pub length: usize,
}

/// The size of the pages and the pages decoded so far, by page number. A
/// page that has been cached stays as it is.
#[derive(Debug, Clone)]
pub struct Pager {
    pub page_size: usize,
    pub pages: HashMap<usize, Page>,
}

/// What decoding the bytes read for page `n` yields: an error where they are
/// not as many as a page holds, else what decoding the page yields.
pub open spec fn loaded_page_spec(buffer: Seq<u8>, n: usize, page_size: usize) -> Result<
    PageView,
    DbError,
> {
    if buffer.len() != page_size {
        Err(DbError::IoError)
    } else {
        page_spec(buffer, n)
    }
}

impl Pager {
    /// Whether page `n` is in the cache.
    pub open spec fn is_cached(&self, n: usize) -> bool {
        self.pages@.contains_key(n)
    }

    /// Where page `n` lies in the file, or an error where it lies past what a
    /// file offset can address.
    pub open spec fn page_request_spec(&self, n: usize) -> Result<ReadRequest, DbError> {
        if page_offset(n, self.page_size) > u64::MAX {
            Err(DbError::IoError)
        } else {
            Ok(
                ReadRequest {
                    offset: page_offset(n, self.page_size) as u64,
                    length: self.page_size,
                },
            )
        }
    }

    /// What has to be read for page `n`: nothing where the page is cached,
    /// else the bytes of the page.
    pub open spec fn read_request_spec(&self, n: usize) -> Result<Option<ReadRequest>, DbError> {
        if self.is_cached(n) {
            Ok(None)
        } else {
            match self.page_request_spec(n) {
                Ok(request) => Ok(Some(request)),
                Err(e) => Err(e),
            }
        }
    }

    /// A pager for pages of `page_size` bytes, with nothing cached.
    pub fn new(page_size: usize) -> (res: Pager)
        ensures
            res.page_size == page_size,
            res.pages@ == Map::<usize, Page>::empty(),
    {
        Pager { page_size, pages: HashMap::new() }
    }

    /// The cached page `n`, if there is one.
    pub fn cached(&self, n: usize) -> (res: Option<&Page>)
        ensures
            match res {
                Some(page) => self.is_cached(n) && *page == self.pages@[n],
                None => !self.is_cached(n),
            },
    {
        self.pages.get(&n)
    }

    /// Where page `n` lies in the file, cached or not.
    ///
    /// Fails with [`DbError::IoError`] where the page lies past what a file
    /// offset can address.
    pub fn page_request(&self, n: usize) -> (res: Result<ReadRequest, DbError>)
        ensures
            res == self.page_request_spec(n),
    {
        if n == 0 {
            return Ok(ReadRequest { offset: 0, length: self.page_size });
        }
        let before: u64 = match ((n - 1) as u64).checked_mul(self.page_size as u64) {
            Some(before) => before,
            None => {
                return Err(DbError::IoError);
            },
        };
        match before.checked_add(100) {
            Some(offset) => Ok(ReadRequest { offset, length: self.page_size }),
            None => Err(DbError::IoError),
        }
    }

    /// What the caller has to read from the file before page `n` can be
    /// handed out: nothing for a cached page.
    ///
    /// Fails as [`Pager::page_request`] does, where the page is not cached.
    pub fn read_request(&self, n: usize) -> (res: Result<Option<ReadRequest>, DbError>)
        ensures
            res == self.read_request_spec(n),
    {
        if self.pages.contains_key(&n) {
            return Ok(None);
        }
        match self.page_request(n) {
            Ok(request) => Ok(Some(request)),
            Err(e) => Err(e),
        }
    }

    /// Decodes the bytes that were read for page `n`.
    ///
    /// Fails with [`DbError::IoError`] where they are not as many as a page
    /// holds, and else as the decoding of the page does.
    pub fn load_page(&self, n: usize, buffer: &[u8]) -> (res: Result<Page, DbError>)
        ensures
            match loaded_page_spec(buffer@, n, self.page_size) {
                Ok(view) => res matches Ok(page) && page@ == view && page.wf(),
                Err(e) => res matches Err(err) && err == e,
            },
    {
        if buffer.len() != self.page_size {
            return Err(DbError::IoError);
        }
        Page::parse(buffer, n)
    }

    /// Hands out page `n`, given the bytes that were read for it: the cached
    /// page where there is one, whatever the bytes; else the page decoded
    /// from the bytes, which is cached from then on.
    ///
    /// Fails as [`Pager::load_page`] does, and then caches nothing.
    pub fn store(&mut self, n: usize, buffer: &[u8]) -> (res: Result<&Page, DbError>)
        ensures
            final(self).page_size == old(self).page_size,
            res matches Ok(page) ==> final(self).pages@ == old(self).pages@.insert(n, *page),
            res is Err ==> final(self).pages@ == old(self).pages@,
            old(self).is_cached(n) ==> final(self).pages@ == old(self).pages@ && res == Ok::<
                &Page,
                DbError,
            >(&old(self).pages@[n]),
            !old(self).is_cached(n) ==> (match loaded_page_spec(buffer@, n, old(self).page_size) {
                Ok(view) => res matches Ok(page) && page@ == view && page.wf(),
                Err(e) => res matches Err(err) && err == e,
            }),
    {
        if !self.pages.contains_key(&n) {
            let page = match self.load_page(n, buffer) {
                Ok(page) => page,
                Err(e) => {
                    return Err(e);
                },
            };
            self.pages.insert(n, page);
        }
        match self.pages.get(&n) {
            Some(page) => Ok(page),
            None => unreached(),
        }
    }
}

/// Reading the same page twice reads the file once: in the state that a
/// successful [`Pager::store`] of page `n` leaves, nothing has to be read for
/// page `n`, and the cache holds the page that was handed out. A further
/// [`Pager::store`] finds the page cached, so it changes nothing and hands
/// out the same page.
pub proof fn lemma_second_read_is_cached(before: Pager, after: Pager, n: usize, page: Page)
    requires
        after.page_size == before.page_size,
        after.pages@ == before.pages@.insert(n, page),
    ensures
        after.read_request_spec(n) == Ok::<Option<ReadRequest>, DbError>(None),
        after.is_cached(n),
        after.pages@[n] == page,
        forall|m: usize| before.is_cached(m) && m != n ==> after.is_cached(m) && after.pages@[m]
            == before.pages@[m],
{
}

} // verus!
