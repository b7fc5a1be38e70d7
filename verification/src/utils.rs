//! Big-endian integer readers and the variable-length integer decoder.
//!
//! Every reader takes a buffer and an offset and is total: where fewer bytes
//! are left than the width asks for, it reads the widest supported width that
//! still fits, and nothing at all yields zero.

use crate::value::FloatBits;
use vstd::prelude::*;

verus! {

/// `256` to the power `n`.
pub open spec fn pow256(n: nat) -> nat
    decreases n,
{
    if n == 0 {
        1
    } else {
        256 * pow256((n - 1) as nat)
    }
}

/// `128` to the power `n`.
pub open spec fn pow128(n: nat) -> nat
    decreases n,
{
    if n == 0 {
        1
    } else {
        128 * pow128((n - 1) as nat)
    }
}

/// The unsigned value of the `width` bytes at `offset`, most significant
/// first.
pub open spec fn be_uint(input: Seq<u8>, offset: int, width: nat) -> nat
    decreases width,
{
    if width == 0 {
        0
    } else {
        be_uint(input, offset, (width - 1) as nat) * 256 + input[offset + width - 1] as nat
    }
}

/// The two's complement reading of `raw` as a number of `width` bytes.
pub open spec fn sign_extend(raw: nat, width: nat) -> int {
    if width > 0 && 2 * raw >= pow256(width) {
        raw - pow256(width)
    } else {
        raw as int
    }
}

/// The number of bytes from `offset` to the end of a buffer of `len` bytes.
pub open spec fn remaining(len: nat, offset: int) -> nat {
    if offset < len {
        (len - offset) as nat
    } else {
        0
    }
}

/// The widest of the record integer widths 8, 6, 4, 3, 2, 1 that is at most
/// `wanted` and fits in `left` bytes; `0` where not even one byte is left.
pub open spec fn fitting_width(wanted: nat, left: nat) -> nat {
    let most = if wanted <= left {
        wanted
    } else {
        left
    };
    if most >= 8 {
        8
    } else if most >= 6 {
        6
    } else if most >= 4 {
        4
    } else if most >= 3 {
        3
    } else if most >= 2 {
        2
    } else if most >= 1 {
        1
    } else {
        0
    }
}

/// The signed integer that a reader of `wanted` bytes finds at `offset`: the
/// sign-extended big-endian value of the widest width that fits.
pub open spec fn signed_at(input: Seq<u8>, offset: int, wanted: nat) -> int {
    let width = fitting_width(wanted, remaining(input.len(), offset));
    sign_extend(be_uint(input, offset, width), width)
}

/// The number of bytes that the unsigned word reader consumes: two, or what
/// is left if that is less.
pub open spec fn word_width(left: nat) -> nat {
    if left >= 2 {
        2
    } else {
        left
    }
}

/// The number of bytes that the unsigned double word reader consumes: four,
/// or else what the word reader would consume.
pub open spec fn double_word_width(left: nat) -> nat {
    if left >= 4 {
        4
    } else {
        word_width(left)
    }
}

/// The state of the varint decoder after it has taken `count` bytes from
/// `offset` on and gathered `acc`, run to its end: the number of bytes taken
/// in all and the 64-bit pattern gathered.
///
/// Each of the first eight bytes gives its low seven bits and, by its high
/// bit, says whether another byte follows; a ninth byte gives all eight of
/// its bits. The end of the buffer ends the varint as well.
pub open spec fn varint_fold(buffer: Seq<u8>, offset: int, count: nat, acc: nat) -> (nat, nat)
    decreases 9 - count,
{
    if count >= 9 || offset + count >= buffer.len() {
        (count, acc)
    } else {
        let byte = buffer[offset + count] as nat;
        if count == 8 {
            (9, acc * 256 + byte)
        } else if byte < 128 {
            (count + 1, acc * 128 + byte)
        } else {
            varint_fold(buffer, offset, count + 1, acc * 128 + (byte - 128) as nat)
        }
    }
}

/// The number of bytes of the varint at `offset`: `0` where `offset` is not
/// inside the buffer, else between `1` and `9`.
pub open spec fn varint_len(buffer: Seq<u8>, offset: int) -> nat {
    if 0 <= offset < buffer.len() {
        varint_fold(buffer, offset, 0, 0).0
    } else {
        0
    }
}

/// The 64-bit pattern of the varint at `offset`, as an unsigned number.
pub open spec fn varint_bits(buffer: Seq<u8>, offset: int) -> nat {
    if 0 <= offset < buffer.len() {
        varint_fold(buffer, offset, 0, 0).1
    } else {
        0
    }
}

/// The value of the varint at `offset`: its 64-bit pattern read as a signed
/// number.
pub open spec fn varint_value(buffer: Seq<u8>, offset: int) -> int {
    sign_extend(varint_bits(buffer, offset), 8)
}

/// The bits of the floating-point number at `offset`: eight bytes as a
/// binary64 pattern, or else four bytes as a binary32 pattern, or else the
/// pattern of zero.
pub open spec fn float_bits_at(input: Seq<u8>, offset: int) -> FloatBits {
    let left = remaining(input.len(), offset);
    if left >= 8 {
        FloatBits::Binary64(be_uint(input, offset, 8) as u64)
    } else if left >= 4 {
        FloatBits::Binary32(be_uint(input, offset, 4) as u32)
    } else {
        FloatBits::Binary64(0)
    }
}

/// The powers of 256 that the readers meet.
pub proof fn lemma_pow256_values()
    ensures
        pow256(0) == 1,
        pow256(1) == 0x100,
        pow256(2) == 0x1_0000,
        pow256(3) == 0x100_0000,
        pow256(4) == 0x1_0000_0000,
        pow256(5) == 0x100_0000_0000,
        pow256(6) == 0x1_0000_0000_0000,
        pow256(7) == 0x100_0000_0000_0000,
        pow256(8) == 0x1_0000_0000_0000_0000,
{
    reveal_with_fuel(pow256, 9);
}

/// The powers of 128 that the varint decoder meets.
pub proof fn lemma_pow128_values()
    ensures
        pow128(0) == 1,
        pow128(1) == 0x80,
        pow128(2) == 0x4000,
        pow128(3) == 0x20_0000,
        pow128(4) == 0x1000_0000,
        pow128(5) == 0x8_0000_0000,
        pow128(6) == 0x400_0000_0000,
        pow128(7) == 0x2_0000_0000_0000,
        pow128(8) == 0x100_0000_0000_0000,
{
    reveal_with_fuel(pow128, 9);
}

/// The varint decoder takes at most nine bytes, none of them past the end of
/// the buffer, and at least one more where one is left and fewer than nine
/// are taken.
pub proof fn lemma_varint_fold_bounds(buffer: Seq<u8>, offset: int, count: nat, acc: nat)
    requires
        count <= 9,
        0 <= offset,
        offset + count <= buffer.len(),
    ensures
        count <= varint_fold(buffer, offset, count, acc).0 <= 9,
        offset + varint_fold(buffer, offset, count, acc).0 <= buffer.len(),
        count < 9 && offset + count < buffer.len() ==> count < varint_fold(
            buffer,
            offset,
            count,
            acc,
        ).0,
    decreases 9 - count,
{
    if count < 8 && offset + count < buffer.len() && buffer[offset + count] >= 128 {
        lemma_varint_fold_bounds(
            buffer,
            offset,
            count + 1,
            acc * 128 + (buffer[offset + count] - 128) as nat,
        );
    }
}

/// A varint inside the buffer takes between one and nine bytes, none of them
/// past the end of the buffer.
pub proof fn lemma_varint_len_bounds(buffer: Seq<u8>, offset: int)
    ensures
        varint_len(buffer, offset) <= 9,
        varint_len(buffer, offset) <= remaining(buffer.len(), offset),
        0 <= offset < buffer.len() ==> 1 <= varint_len(buffer, offset),
{
    if 0 <= offset < buffer.len() {
        lemma_varint_fold_bounds(buffer, offset, 0, 0);
    }
}

/// The varint decoder gathers at most 64 bits.
pub proof fn lemma_varint_fold_bits(buffer: Seq<u8>, offset: int, count: nat, acc: nat)
    requires
        count <= 8 ==> acc < pow128(count),
        count >= 9 ==> acc < pow256(8),
    ensures
        varint_fold(buffer, offset, count, acc).1 < pow256(8),
    decreases 9 - count,
{
    lemma_pow128_values();
    lemma_pow256_values();
    reveal_with_fuel(pow128, 9);
    if count < 8 && offset + count < buffer.len() && buffer[offset + count] >= 128 {
        lemma_varint_fold_bits(
            buffer,
            offset,
            count + 1,
            acc * 128 + (buffer[offset + count] - 128) as nat,
        );
    }
}

/// The value of a varint is a signed 64-bit number.
pub proof fn lemma_varint_value_range(buffer: Seq<u8>, offset: int)
    ensures
        i64::MIN <= varint_value(buffer, offset) <= i64::MAX,
{
    lemma_pow256_values();
    if 0 <= offset < buffer.len() {
        lemma_varint_fold_bits(buffer, offset, 0, 0);
    }
}

/// A big-endian value of `width` bytes is below `256` to the `width`.
pub proof fn lemma_be_uint_bound(input: Seq<u8>, offset: int, width: nat)
    ensures
        be_uint(input, offset, width) < pow256(width),
    decreases width,
{
    if width > 0 {
        lemma_be_uint_bound(input, offset, (width - 1) as nat);
    }
}

/// Reads the `width` bytes at `offset` as a big-endian unsigned number.
fn read_be_uint(input: &[u8], offset: usize, width: usize) -> (res: u64)
    requires
        width <= 8,
        offset + width <= input@.len(),
    ensures
        res == be_uint(input@, offset as int, width as nat),
{
    let len: usize = input.len();
    let mut acc: u64 = 0;
    let mut i: usize = 0;
    while i < width
        invariant
            i <= width <= 8,
            len == input@.len(),
            offset + width <= len,
            acc == be_uint(input@, offset as int, i as nat),
        decreases width - i,
    {
        proof {
            lemma_be_uint_bound(input@, offset as int, i as nat);
            lemma_pow256_values();
            reveal_with_fuel(pow256, 9);
        }
        acc = acc * 256 + input[offset + i] as u64;
        i = i + 1;
    }
    acc
}

/// Reads a 64-bit pattern as the signed number that it stands for.
fn to_signed(raw: u64) -> (res: i64)
    ensures
        res == sign_extend(raw as nat, 8),
{
    proof {
        lemma_pow256_values();
    }
    if raw >= 0x8000_0000_0000_0000 {
        let low: i64 = (raw - 0x8000_0000_0000_0000) as i64;
        low + i64::MIN
    } else {
        raw as i64
    }
}

/// Sign-extends a value of `width` bytes, `width` at most seven.
fn extend_sign(raw: u64, width: usize) -> (res: i64)
    requires
        1 <= width <= 7,
        raw < pow256(width as nat),
    ensures
        res == sign_extend(raw as nat, width as nat),
{
    proof {
        lemma_pow256_values();
    }
    let modulus: u64 = if width == 1 {
        0x100
    } else if width == 2 {
        0x1_0000
    } else if width == 3 {
        0x100_0000
    } else if width == 4 {
        0x1_0000_0000
    } else if width == 5 {
        0x100_0000_0000
    } else if width == 6 {
        0x1_0000_0000_0000
    } else {
        0x100_0000_0000_0000
    };
    if raw >= modulus / 2 {
        raw as i64 - modulus as i64
    } else {
        raw as i64
    }
}

/// Decodes the varint at `offset`: the number of bytes it takes and its
/// value. An offset at or past the end of the buffer yields `(0, 0)`; a
/// varint that the end of the buffer cuts short yields the bits read so far.
pub fn read_varint_at(buffer: &[u8], offset: usize) -> (res: (u8, i64))
    ensures
        res.0 == varint_len(buffer@, offset as int),
        res.1 == varint_value(buffer@, offset as int),
        offset >= buffer@.len() ==> res.0 == 0 && res.1 == 0,
        offset < buffer@.len() ==> 1 <= res.0 <= 9 && offset + res.0 <= buffer@.len(),
{
    let len: usize = buffer.len();
    let mut acc: u64 = 0;
    let mut bytes: u8 = 0;
    proof {
        lemma_pow256_values();
        lemma_pow128_values();
        lemma_varint_len_bounds(buffer@, offset as int);
    }
    if offset < len {
        let left: usize = len - offset;
        while bytes < 9 && (bytes as usize) < left
            invariant_except_break
                bytes <= 8 ==> acc < pow128(bytes as nat),
                varint_fold(buffer@, offset as int, bytes as nat, acc as nat) == varint_fold(
                    buffer@,
                    offset as int,
                    0,
                    0,
                ),
            invariant
                offset < len,
                len == buffer@.len(),
                left == len - offset,
                bytes <= 9,
            ensures
                1 <= bytes <= 9,
                (bytes as nat, acc as nat) == varint_fold(buffer@, offset as int, 0, 0),
            decreases 9 - bytes,
        {
            proof {
                lemma_pow128_values();
                reveal_with_fuel(pow128, 9);
            }
            let byte: u8 = buffer[offset + bytes as usize];
            if bytes == 8 {
                acc = acc * 256 + byte as u64;
                bytes = 9;
                break ;
            } else if byte < 128 {
                acc = acc * 128 + byte as u64;
                bytes = bytes + 1;
                break ;
            } else {
                acc = acc * 128 + (byte - 128) as u64;
                bytes = bytes + 1;
            }
        }
    }
    (bytes, to_signed(acc))
}

/// One step of the recursive varint decoder: `bytes` bytes have been taken
/// and `acc` gathered.
fn read_varint_go(buffer: &[u8], offset: usize, acc: u64, bytes: u8) -> (res: (u8, u64))
    requires
        offset < buffer@.len(),
        bytes <= 9,
        bytes <= 8 ==> acc < pow128(bytes as nat),
    ensures
        (res.0 as nat, res.1 as nat) == varint_fold(
            buffer@,
            offset as int,
            bytes as nat,
            acc as nat,
        ),
    decreases 9 - bytes,
{
    proof {
        lemma_pow128_values();
        reveal_with_fuel(pow128, 9);
    }
    if bytes >= 9 || bytes as usize >= buffer.len() - offset {
        (bytes, acc)
    } else {
        let byte: u8 = buffer[offset + bytes as usize];
        if bytes == 8 {
            (9, acc * 256 + byte as u64)
        } else if byte < 128 {
            (bytes + 1, acc * 128 + byte as u64)
        } else {
            read_varint_go(buffer, offset, acc * 128 + (byte - 128) as u64, bytes + 1)
        }
    }
}

/// Decodes the varint at `offset` as [`read_varint_at`] does, byte by byte
/// through recursion.
pub fn read_varint_rec(buffer: &[u8], offset: usize) -> (res: (u8, i64))
    ensures
        res.0 == varint_len(buffer@, offset as int),
        res.1 == varint_value(buffer@, offset as int),
        offset >= buffer@.len() ==> res.0 == 0 && res.1 == 0,
        offset < buffer@.len() ==> 1 <= res.0 <= 9 && offset + res.0 <= buffer@.len(),
{
    proof {
        lemma_pow256_values();
        lemma_varint_len_bounds(buffer@, offset as int);
    }
    if offset >= buffer.len() {
        (0, 0)
    } else {
        let found = read_varint_go(buffer, offset, 0, 0);
        (found.0, to_signed(found.1))
    }
}

/// Reads a big-endian 16-bit word at `offset`, or the one byte that is left,
/// or nothing. The first component is the number of bytes read.
pub fn read_be_word_at(input: &[u8], offset: usize) -> (res: (u8, u16))
    ensures
        res.0 == word_width(remaining(input@.len(), offset as int)),
        res.1 == be_uint(input@, offset as int, res.0 as nat),
{
    let len: usize = input.len();
    proof {
        reveal_with_fuel(be_uint, 3);
    }
    if offset < len && len - offset >= 2 {
        (2, input[offset] as u16 * 256 + input[offset + 1] as u16)
    } else if offset < len {
        (1, input[offset] as u16)
    } else {
        (0, 0)
    }
}

/// Reads a big-endian 32-bit double word at `offset`, or else what the word
/// reader finds there. The first component is the number of bytes read.
pub fn read_be_double_word_at(input: &[u8], offset: usize) -> (res: (u8, u32))
    ensures
        res.0 == double_word_width(remaining(input@.len(), offset as int)),
        res.1 == be_uint(input@, offset as int, res.0 as nat),
{
    let len: usize = input.len();
    if offset < len && len - offset >= 4 {
        proof {
            lemma_be_uint_bound(input@, offset as int, 4);
            lemma_pow256_values();
        }
        (4, read_be_uint(input, offset, 4) as u32)
    } else {
        let word = read_be_word_at(input, offset);
        (word.0, word.1 as u32)
    }
}

/// Reads the byte at `offset` as a signed number; `0` past the end.
pub fn read_i8_at(input: &[u8], offset: usize) -> (res: i64)
    ensures
        res == signed_at(input@, offset as int, 1),
{
    proof {
        reveal_with_fuel(be_uint, 2);
        lemma_pow256_values();
    }
    if offset >= input.len() {
        0
    } else if input[offset] >= 128 {
        input[offset] as i64 - 256
    } else {
        input[offset] as i64
    }
}

/// Reads two bytes at `offset` as a signed number, or else what
/// [`read_i8_at`] finds there.
pub fn read_i16_at(input: &[u8], offset: usize) -> (res: i64)
    ensures
        res == signed_at(input@, offset as int, 2),
{
    let len: usize = input.len();
    if offset < len && len - offset >= 2 {
        proof {
            lemma_be_uint_bound(input@, offset as int, 2);
        }
        extend_sign(read_be_uint(input, offset, 2), 2)
    } else {
        read_i8_at(input, offset)
    }
}

/// Reads three bytes at `offset` as a signed number, or else what
/// [`read_i16_at`] finds there.
pub fn read_i24_at(input: &[u8], offset: usize) -> (res: i64)
    ensures
        res == signed_at(input@, offset as int, 3),
{
    let len: usize = input.len();
    if offset < len && len - offset >= 3 {
        proof {
            lemma_be_uint_bound(input@, offset as int, 3);
        }
        extend_sign(read_be_uint(input, offset, 3), 3)
    } else {
        read_i16_at(input, offset)
    }
}

/// Reads four bytes at `offset` as a signed number, or else what
/// [`read_i24_at`] finds there.
pub fn read_i32_at(input: &[u8], offset: usize) -> (res: i64)
    ensures
        res == signed_at(input@, offset as int, 4),
{
    let len: usize = input.len();
    if offset < len && len - offset >= 4 {
        proof {
            lemma_be_uint_bound(input@, offset as int, 4);
        }
        extend_sign(read_be_uint(input, offset, 4), 4)
    } else {
        read_i24_at(input, offset)
    }
}

/// Reads six bytes at `offset` as a signed number, or else what
/// [`read_i32_at`] finds there.
pub fn read_i48_at(input: &[u8], offset: usize) -> (res: i64)
    ensures
        res == signed_at(input@, offset as int, 6),
{
    let len: usize = input.len();
    if offset < len && len - offset >= 6 {
        proof {
            lemma_be_uint_bound(input@, offset as int, 6);
        }
        extend_sign(read_be_uint(input, offset, 6), 6)
    } else {
        read_i32_at(input, offset)
    }
}

/// Reads eight bytes at `offset` as a signed number, or else what
/// [`read_i48_at`] finds there.
pub fn read_i64_at(input: &[u8], offset: usize) -> (res: i64)
    ensures
        res == signed_at(input@, offset as int, 8),
{
    let len: usize = input.len();
    if offset < len && len - offset >= 8 {
        to_signed(read_be_uint(input, offset, 8))
    } else {
        read_i48_at(input, offset)
    }
}

/// Reads the bits of a floating-point number at `offset`: eight bytes as
/// binary64, or four bytes as binary32 where fewer than eight are left, or
/// the bits of zero where fewer than four are left.
pub fn read_f64_bits_at(input: &[u8], offset: usize) -> (res: FloatBits)
    ensures
        res == float_bits_at(input@, offset as int),
{
    let len: usize = input.len();
    proof {
        lemma_pow256_values();
    }
    if offset < len && len - offset >= 8 {
        FloatBits::Binary64(read_be_uint(input, offset, 8))
    } else if offset < len && len - offset >= 4 {
        proof {
            lemma_be_uint_bound(input@, offset as int, 4);
        }
        FloatBits::Binary32(read_be_uint(input, offset, 4) as u32)
    } else {
        FloatBits::Binary64(0)
    }
}

} // verus!
