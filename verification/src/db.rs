//! The header of a database file.

use crate::error::DbError;
use crate::page::page_header::PAGE_MAX_SIZE;
use crate::utils::{be_uint, read_be_word_at, remaining, word_width};
use vstd::arithmetic::power2::{lemma2_to64, lemma_pow2_strictly_increases, pow2};
use vstd::prelude::*;

verus! {

/// What the file header says of the file.
#[derive(Debug, Clone, Copy, PartialEq)]
pub struct DbHeader {
    /// The size of each page, in bytes.
    pub page_size: u32,
}

/// The sixteen bytes that a database file begins with: `SQLite format 3` and
/// a zero byte.
pub open spec fn header_prefix() -> Seq<u8> {
    seq![83u8, 81, 76, 105, 116, 101, 32, 102, 111, 114, 109, 97, 116, 32, 51, 0]
}

/// Whether `buffer` begins with the sixteen bytes of [`header_prefix`].
pub open spec fn has_header_prefix(buffer: Seq<u8>) -> bool {
    buffer.len() >= 16 && buffer.subrange(0, 16) == header_prefix()
}

/// The raw page size field: the big-endian word at offset 16, read as far as
/// the buffer goes.
pub open spec fn raw_page_size(buffer: Seq<u8>) -> nat {
    be_uint(buffer, 16, word_width(remaining(buffer.len(), 16)))
}

/// Whether `n` is a power of two.
pub open spec fn is_power_of_two(n: int) -> bool {
    exists|k: nat| n == pow2(k)
}

/// The page size that a raw field value stands for: `1` stands for 65536,
/// each other power of two for itself, and nothing else for a page size.
pub open spec fn page_size_of(raw: nat) -> Option<u32> {
    if raw == 1 {
        Some(65536u32)
    } else if raw <= u16::MAX && is_power_of_two(raw as int) {
        Some(raw as u32)
    } else {
        None
    }
}

/// What parsing a file header yields.
pub open spec fn db_header_spec(buffer: Seq<u8>) -> Result<DbHeader, DbError> {
    if !has_header_prefix(buffer) {
        Err(DbError::InvalidHeader)
    } else {
        match page_size_of(raw_page_size(buffer)) {
            Some(page_size) => Ok(DbHeader { page_size }),
            None => Err(DbError::InvalidPageSize),
        }
    }
}

/// Whether the raw page size field holds one of the values that the format
/// allows: `1`, or a power of two from 512 to 32768.
pub open spec fn raw_page_size_in_format(raw: nat) -> bool {
    raw == 1 || (512 <= raw <= 32768 && is_power_of_two(raw as int))
}

/// A 16-bit number is a power of two exactly if it is one of the sixteen
/// numbers with a single bit set.
pub proof fn lemma_power_of_two_u16(n: u16)
    ensures
        is_power_of_two(n as int) <==> (n != 0 && n & ((n - 1) as u16) == 0),
{
    lemma2_to64();
    let single = n == 1 || n == 2 || n == 4 || n == 8 || n == 16 || n == 32 || n == 64 || n == 128
        || n == 256 || n == 512 || n == 1024 || n == 2048 || n == 4096 || n == 8192 || n == 16384
        || n == 32768;
    assert(single <==> (n != 0 && n & ((n - 1) as u16) == 0)) by (bit_vector)
        requires
            single == (n == 1 || n == 2 || n == 4 || n == 8 || n == 16 || n == 32 || n == 64 || n
                == 128 || n == 256 || n == 512 || n == 1024 || n == 2048 || n == 4096 || n == 8192
                || n == 16384 || n == 32768),
    ;
    if single {
        let k: nat = if n == 1 {
            0
        } else if n == 2 {
            1
        } else if n == 4 {
            2
        } else if n == 8 {
            3
        } else if n == 16 {
            4
        } else if n == 32 {
            5
        } else if n == 64 {
            6
        } else if n == 128 {
            7
        } else if n == 256 {
            8
        } else if n == 512 {
            9
        } else if n == 1024 {
            10
        } else if n == 2048 {
            11
        } else if n == 4096 {
            12
        } else if n == 8192 {
            13
        } else if n == 16384 {
            14
        } else {
            15
        };
        assert(n == pow2(k));
    }
    if is_power_of_two(n as int) {
        let k = choose|k: nat| n == pow2(k);
        if k >= 16 {
            if k > 16 {
                lemma_pow2_strictly_increases(16, k);
            }
            assert(false);
        }
        assert(single);
    }
}

impl DbHeader {
    /// Parses the file header: the magic prefix, then the page size.
    ///
    /// Fails with [`DbError::InvalidHeader`] where the prefix is missing and
    /// with [`DbError::InvalidPageSize`] where the page size field is neither
    /// `1` nor a power of two.
    pub fn parse(buffer: &[u8]) -> (res: Result<DbHeader, DbError>)
        ensures
            res == db_header_spec(buffer@),
            res matches Ok(header) ==> is_power_of_two(header.page_size as int) && 2
                <= header.page_size <= 65536,
    {
        if !starts_with_prefix(buffer) {
            return Err(DbError::InvalidHeader);
        }
        let page_size_raw: u16 = read_be_word_at(buffer, 16).1;
        proof {
            lemma_power_of_two_u16(page_size_raw);
            lemma2_to64();
        }
        if page_size_raw == 1 {
            assert(65536 == pow2(16));
            Ok(DbHeader { page_size: PAGE_MAX_SIZE })
        } else if page_size_raw != 0 && page_size_raw & (page_size_raw - 1) == 0 {
            Ok(DbHeader { page_size: page_size_raw as u32 })
        } else {
            Err(DbError::InvalidPageSize)
        }
    }
}

/// Whether `buffer` begins with the magic prefix.
fn starts_with_prefix(buffer: &[u8]) -> (res: bool)
    ensures
        res == has_header_prefix(buffer@),
{
    let prefix: [u8; 16] = [83, 81, 76, 105, 116, 101, 32, 102, 111, 114, 109, 97, 116, 32, 51, 0];
    if buffer.len() < 16 {
        return false;
    }
    let mut i: usize = 0;
    while i < 16
        invariant
            i <= 16,
            buffer@.len() >= 16,
            prefix@ == header_prefix(),
            forall|j: int| 0 <= j < i ==> buffer@[j] == header_prefix()[j],
        decreases 16 - i,
    {
        if buffer[i] != prefix[i] {
            assert(buffer@.subrange(0, 16)[i as int] != header_prefix()[i as int]);
            return false;
        }
        i = i + 1;
    }
    assert(buffer@.subrange(0, 16) =~= header_prefix());
    true
}

/// A header whose page size field holds a value that the format allows is
/// accepted, and its page size is a power of two from 512 to 65536.
pub proof fn lemma_page_size_in_format(buffer: Seq<u8>)
    requires
        has_header_prefix(buffer),
        raw_page_size_in_format(raw_page_size(buffer)),
    ensures
        db_header_spec(buffer) matches Ok(header) && is_power_of_two(header.page_size as int)
            && 512 <= header.page_size <= 65536,
{
    lemma2_to64();
    assert(65536 == pow2(16));
}

} // verus!
