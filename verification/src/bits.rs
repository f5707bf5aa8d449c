//! Sixty-four squares as the bits of a `u64`: bit `8 * rank + file`, with
//! a1 at bit 0 and h8 at bit 63.

use vstd::prelude::*;

verus! {

/// The a-file.
pub const FILE_A: u64 = 0x0101_0101_0101_0101;

/// The first rank.
pub const RANK_1: u64 = 0xff;

/// The four central squares d4, e4, d5 and e5.
pub const CENTER: u64 = 0x0000_0018_1800_0000;

/// The squares of file `f`, for `f` in `0..8`.
pub open spec fn file_mask(f: u64) -> u64 {
    FILE_A << f
}

/// The squares of rank `r`, for `r` in `0..8`.
pub open spec fn rank_mask(r: u64) -> u64 {
    RANK_1 << (8 * r) as u64
}

/// The set that holds the one square `square`, for `square` in `0..64`.
pub open spec fn square_mask(square: u8) -> u64 {
    1u64 << square
}

/// 1 when square `i` is in the set `x`, else 0.
pub open spec fn bit_at(x: u64, i: u64) -> nat {
    if (x >> i) & 1 == 1 {
        1
    } else {
        0
    }
}

/// How many of the squares `0..n` are in the set `x`.
pub open spec fn count_below(x: u64, n: u64) -> nat
    decreases n,
{
    if n == 0 {
        0
    } else {
        count_below(x, (n - 1) as u64) + bit_at(x, (n - 1) as u64)
    }
}

/// The number of squares in the set `x`.
pub open spec fn popcount(x: u64) -> nat {
    count_below(x, 64)
}

/// The set `x` seen from the other side of the board: rank `r` becomes
/// rank `7 - r` and the files stay.
pub open spec fn flip(x: u64) -> u64 {
    (x << 56) | ((x << 40) & 0x00ff_0000_0000_0000) | ((x << 24) & 0x0000_ff00_0000_0000) | ((x
        << 8) & 0x0000_00ff_0000_0000) | ((x >> 8) & 0x0000_0000_ff00_0000) | ((x >> 24)
        & 0x0000_0000_00ff_0000) | ((x >> 40) & 0x0000_0000_0000_ff00) | (x >> 56)
}

pub proof fn lemma_count_below_bound(x: u64, n: u64)
    ensures
        count_below(x, n) <= n,
    decreases n,
{
    if n > 0 {
        lemma_count_below_bound(x, (n - 1) as u64);
    }
}

/// The set that holds the one square `square`.
pub fn square_bit(square: u8) -> (m: u64)
    requires
        square < 64,
    ensures
        m == square_mask(square),
{
    1u64 << square
}

/// The squares of file `f`.
pub fn file_bits(f: u8) -> (m: u64)
    requires
        f < 8,
    ensures
        m == file_mask(f as u64),
{
    FILE_A << f
}

/// The squares of rank `r`.
pub fn rank_bits(r: u8) -> (m: u64)
    requires
        r < 8,
    ensures
        m == rank_mask(r as u64),
{
    let shift: u8 = 8 * r;
    assert(RANK_1 << shift == RANK_1 << ((8 * (r as u64)) as u64)) by (bit_vector)
        requires
            shift == 8 * r,
            r < 8,
    ;
    RANK_1 << shift
}

/// Counts the squares in `x`.
pub fn popcnt(x: u64) -> (n: u32)
    ensures
        n == popcount(x),
        n <= 64,
{
    let mut n: u32 = 0;
    let mut i: u8 = 0;
    while i < 64
        invariant
            i <= 64,
            n == count_below(x, i as u64),
            n <= i,
        decreases 64 - i,
    {
        if (x >> i) & 1 == 1 {
            n = n + 1;
        }
        i = i + 1;
    }
    n
}

/// Turns the board upside down: the set `x` with every rank `r` moved to
/// rank `7 - r`.
pub fn flip_bits(x: u64) -> (y: u64)
    ensures
        y == flip(x),
{
    (x << 56) | ((x << 40) & 0x00ff_0000_0000_0000) | ((x << 24) & 0x0000_ff00_0000_0000) | ((x
        << 8) & 0x0000_00ff_0000_0000) | ((x >> 8) & 0x0000_0000_ff00_0000) | ((x >> 24)
        & 0x0000_0000_00ff_0000) | ((x >> 40) & 0x0000_0000_0000_ff00) | (x >> 56)
}

/// The squares of rank `r` that are in `x`, counted.
pub open spec fn rank_count(x: u64, r: u64) -> nat {
    bit_at(x, (8 * r) as u64) + bit_at(x, (8 * r + 1) as u64) + bit_at(x, (8 * r + 2) as u64)
        + bit_at(x, (8 * r + 3) as u64) + bit_at(x, (8 * r + 4) as u64) + bit_at(
        x,
        (8 * r + 5) as u64,
    ) + bit_at(x, (8 * r + 6) as u64) + bit_at(x, (8 * r + 7) as u64)
}

proof fn lemma_count_rank(x: u64, r: u64)
    requires
        r < 8,
    ensures
        count_below(x, (8 * r + 8) as u64) == count_below(x, (8 * r) as u64) + rank_count(x, r),
{
    reveal_with_fuel(count_below, 9);
}

/// What turning the board upside down does, square by square: the square
/// of file `f` on rank `r` is in the image exactly when the square of file
/// `f` on rank `7 - r` is in `x`.
pub proof fn lemma_flip_bit(x: u64, r: u64, f: u64)
    by (bit_vector)
    requires
        r < 8,
        f < 8,
    ensures
        ((flip(x) >> ((8 * r + f) as u64)) & 1 == 1) == ((x >> ((8 * (7 - r) + f) as u64)) & 1
            == 1),
{
}

proof fn lemma_flip_rank_count(x: u64, r: u64)
    requires
        r < 8,
    ensures
        rank_count(flip(x), r) == rank_count(x, (7 - r) as u64),
{
    lemma_flip_bit(x, r, 0);
    lemma_flip_bit(x, r, 1);
    lemma_flip_bit(x, r, 2);
    lemma_flip_bit(x, r, 3);
    lemma_flip_bit(x, r, 4);
    lemma_flip_bit(x, r, 5);
    lemma_flip_bit(x, r, 6);
    lemma_flip_bit(x, r, 7);
}

proof fn lemma_popcount_by_ranks(x: u64)
    ensures
        popcount(x) == rank_count(x, 0) + rank_count(x, 1) + rank_count(x, 2) + rank_count(x, 3)
            + rank_count(x, 4) + rank_count(x, 5) + rank_count(x, 6) + rank_count(x, 7),
{
    lemma_count_rank(x, 0);
    lemma_count_rank(x, 1);
    lemma_count_rank(x, 2);
    lemma_count_rank(x, 3);
    lemma_count_rank(x, 4);
    lemma_count_rank(x, 5);
    lemma_count_rank(x, 6);
    lemma_count_rank(x, 7);
}

/// Turning the board upside down keeps the number of squares in a set.
pub proof fn lemma_flip_popcount(x: u64)
    ensures
        popcount(flip(x)) == popcount(x),
{
    lemma_popcount_by_ranks(x);
    lemma_popcount_by_ranks(flip(x));
    lemma_flip_rank_count(x, 0);
    lemma_flip_rank_count(x, 1);
    lemma_flip_rank_count(x, 2);
    lemma_flip_rank_count(x, 3);
    lemma_flip_rank_count(x, 4);
    lemma_flip_rank_count(x, 5);
    lemma_flip_rank_count(x, 6);
    lemma_flip_rank_count(x, 7);
}

/// The upside-down image of an intersection is the intersection of the
/// images.
pub proof fn lemma_flip_and(a: u64, b: u64)
    by (bit_vector)
    ensures
        flip(a & b) == flip(a) & flip(b),
{
}

/// A set that is its own upside-down image meets `x` exactly when it meets
/// the image of `x`, and in as many squares.
pub proof fn lemma_flip_within(x: u64, m: u64)
    requires
        flip(m) == m,
    ensures
        (flip(x) & m == 0) == (x & m == 0),
        popcount(flip(x) & m) == popcount(x & m),
{
    lemma_flip_and(x, m);
    lemma_flip_popcount(x & m);
    let y = x & m;
    assert((flip(y) == 0) == (y == 0)) by (bit_vector);
}

/// A file is its own upside-down image.
pub proof fn lemma_flip_file(f: u64)
    by (bit_vector)
    requires
        f < 8,
    ensures
        flip(file_mask(f)) == file_mask(f),
{
}

/// The centre is its own upside-down image.
pub proof fn lemma_flip_center()
    by (bit_vector)
    ensures
        flip(CENTER) == CENTER,
{
}

/// The image of `x` meets rank `7 - r` exactly when `x` meets rank `r`.
pub proof fn lemma_flip_on_rank(x: u64, r: u64)
    by (bit_vector)
    requires
        r < 8,
    ensures
        (flip(x) & rank_mask((7 - r) as u64) == 0) == (x & rank_mask(r) == 0),
{
}

/// The empty set has no squares.
pub proof fn lemma_popcount_empty()
    ensures
        popcount(0) == 0,
{
    lemma_count_empty(64);
}

proof fn lemma_count_empty(n: u64)
    requires
        n <= 64,
    ensures
        count_below(0, n) == 0,
    decreases n,
{
    if n > 0 {
        lemma_count_empty((n - 1) as u64);
        let i = (n - 1) as u64;
        assert((0u64 >> i) & 1 == 0) by (bit_vector);
    }
}

/// The empty set meets no set.
pub proof fn lemma_empty_meets(m: u64)
    by (bit_vector)
    ensures
        0u64 & m == 0,
{
}

} // verus!
