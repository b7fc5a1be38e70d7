//! The encoding that the varint decoder undoes, and what holds between the
//! two.

use crate::utils::{
    lemma_pow128_values, lemma_pow256_values, pow128, pow256, sign_extend, varint_fold, varint_len,
    varint_value,
};
use vstd::arithmetic::div_mod::{lemma_fundamental_div_mod, lemma_mod_bound};
use vstd::prelude::*;

verus! {

/// The lowest `n` groups of seven bits of `x`, the most significant group
/// first, each as a byte with the continuation bit set.
pub open spec fn continued_groups(x: nat, n: nat) -> Seq<u8>
    decreases n,
{
    if n == 0 {
        Seq::empty()
    } else {
        seq![(128 + (x / pow128((n - 1) as nat)) % 128) as u8] + continued_groups(
            x % pow128((n - 1) as nat),
            (n - 1) as nat,
        )
    }
}

/// The number of bytes of the shortest varint that holds the 64-bit pattern
/// `bits`: one byte for every seven bits up to 56 bits, nine bytes above
/// that.
pub open spec fn encoded_len(bits: nat) -> nat {
    if bits < pow128(1) {
        1
    } else if bits < pow128(2) {
        2
    } else if bits < pow128(3) {
        3
    } else if bits < pow128(4) {
        4
    } else if bits < pow128(5) {
        5
    } else if bits < pow128(6) {
        6
    } else if bits < pow128(7) {
        7
    } else if bits < pow128(8) {
        8
    } else {
        9
    }
}

/// The shortest varint that holds the 64-bit pattern `bits`. Up to eight
/// bytes, each byte but the last carries seven bits and the continuation
/// bit, and the last carries seven bits. In nine bytes, the first eight carry
/// the upper 56 bits, and the ninth carries the lowest eight bits.
pub open spec fn encode_bits(bits: nat) -> Seq<u8> {
    if encoded_len(bits) <= 8 {
        continued_groups(bits / 128, (encoded_len(bits) - 1) as nat).push((bits % 128) as u8)
    } else {
        continued_groups(bits / 256, 8).push((bits % 256) as u8)
    }
}

/// The 64-bit two's complement pattern of `value`, as an unsigned number.
pub open spec fn bits_of(value: i64) -> nat {
    if value >= 0 {
        value as nat
    } else {
        (value + pow256(8)) as nat
    }
}

/// The shortest varint that holds `value`.
pub open spec fn encode(value: i64) -> Seq<u8> {
    encode_bits(bits_of(value))
}

/// There are as many continued groups as were asked for.
pub proof fn lemma_continued_groups_len(x: nat, n: nat)
    ensures
        continued_groups(x, n).len() == n,
    decreases n,
{
    if n > 0 {
        lemma_pow128_positive((n - 1) as nat);
        lemma_continued_groups_len(x % pow128((n - 1) as nat), (n - 1) as nat);
    }
}

/// A power of 128 is positive.
pub proof fn lemma_pow128_positive(n: nat)
    ensures
        pow128(n) > 0,
    decreases n,
{
    if n > 0 {
        lemma_pow128_positive((n - 1) as nat);
    }
}

/// The decoder, having taken `count` bytes, passes over `n` continued groups
/// that spell `x` and has then gathered them behind what it had.
proof fn lemma_fold_continued_groups(
    buffer: Seq<u8>,
    offset: int,
    count: nat,
    acc: nat,
    x: nat,
    n: nat,
)
    requires
        0 <= offset,
        count + n <= 8,
        x < pow128(n),
        offset + count + n <= buffer.len(),
        forall|i: int| 0 <= i < n ==> buffer[offset + count + i] == continued_groups(x, n)[i],
    ensures
        varint_fold(buffer, offset, count, acc) == varint_fold(
            buffer,
            offset,
            count + n,
            acc * pow128(n) + x,
        ),
    decreases n,
{
    if n == 0 {
        assert(acc * 1 + x == acc);
    } else {
        let rest = (n - 1) as nat;
        let p = pow128(rest);
        let group = x / p;
        let low = x % p;
        lemma_pow128_positive(rest);
        lemma_fundamental_div_mod(x as int, p as int);
        lemma_mod_bound(x as int, p as int);
        assert(group < 128) by (nonlinear_arith)
            requires
                x < 128 * p,
                x == p * group + low,
                0 <= low,
                0 < p,
        ;
        lemma_continued_groups_len(low, rest);
        assert(continued_groups(x, n)[0] == (128 + group % 128) as u8);
        assert(buffer[offset + count + 0] == continued_groups(x, n)[0]);
        assert(buffer[offset + count] >= 128);
        assert forall|i: int| 0 <= i < rest implies buffer[offset + (count + 1) + i]
            == continued_groups(low, rest)[i] by {
            assert(buffer[offset + count + (i + 1)] == continued_groups(x, n)[i + 1]);
        }
        lemma_fold_continued_groups(buffer, offset, count + 1, acc * 128 + group, low, rest);
        assert((acc * 128 + group) * p + low == acc * pow128(n) + x) by (nonlinear_arith)
            requires
                pow128(n) == 128 * p,
                x == p * group + low,
        ;
    }
}

/// Decoding undoes encoding: wherever the shortest varint of `value` stands
/// in a buffer, the decoder takes exactly its bytes, between one and nine,
/// and finds `value`.
pub proof fn lemma_varint_round_trip(value: i64, before: Seq<u8>, after: Seq<u8>)
    ensures
        1 <= encode(value).len() <= 9,
        varint_len(before + encode(value) + after, before.len() as int) == encode(value).len(),
        varint_value(before + encode(value) + after, before.len() as int) == value,
{
    lemma_pow128_values();
    lemma_pow256_values();
    let bits = bits_of(value);
    let n = encoded_len(bits);
    let encoded = encode(value);
    let buffer = before + encoded + after;
    let offset = before.len() as int;
    let groups = (if n <= 8 {
        n - 1
    } else {
        8
    }) as nat;
    let upper = if n <= 8 {
        bits / 128
    } else {
        bits / 256
    };
    let lowest = if n <= 8 {
        bits % 128
    } else {
        bits % 256
    };
    lemma_continued_groups_len(upper, groups);
    assert(encoded == continued_groups(upper, groups).push(lowest as u8));
    assert(encoded.len() == groups + 1);
    assert forall|i: int| 0 <= i < groups implies buffer[offset + 0 + i] == continued_groups(
        upper,
        groups,
    )[i] by {
        assert(buffer[offset + i] == encoded[i]);
    }
    assert(buffer[offset + groups] == lowest as u8) by {
        assert(buffer[offset + groups] == encoded[groups as int]);
    }
    lemma_fold_continued_groups(buffer, offset, 0, 0, upper, groups);
    assert(0 * pow128(groups) + upper == upper);
    assert(varint_fold(buffer, offset, 0, 0) == varint_fold(buffer, offset, groups, upper));
    assert(varint_fold(buffer, offset, groups, upper) == (n, bits));
    assert(sign_extend(bits, 8) == value);
}

/// A buffer that begins with nine bytes, all of them `0xff`, begins with
/// the varint of `-1`, which takes exactly those nine bytes, whatever
/// follows.
pub proof fn lemma_varint_all_ones(buffer: Seq<u8>)
    requires
        buffer.len() >= 9,
        forall|i: int| 0 <= i < 9 ==> buffer[i] == 0xff,
    ensures
        varint_len(buffer, 0) == 9,
        varint_value(buffer, 0) == -1,
{
    lemma_pow256_values();
    reveal_with_fuel(varint_fold, 10);
    assert(buffer[0] == 0xff && buffer[1] == 0xff && buffer[2] == 0xff && buffer[3] == 0xff
        && buffer[4] == 0xff && buffer[5] == 0xff && buffer[6] == 0xff && buffer[7] == 0xff
        && buffer[8] == 0xff);
}

/// Past the end of a buffer, and so anywhere in an empty one, the decoder
/// takes no byte and finds zero.
pub proof fn lemma_varint_past_the_end(buffer: Seq<u8>, offset: int)
    requires
        offset >= buffer.len(),
    ensures
        varint_len(buffer, offset) == 0,
        varint_value(buffer, offset) == 0,
{
    lemma_pow256_values();
}

} // verus!
