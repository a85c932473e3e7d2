//! Power-of-two blocks of the address space: the arithmetic behind regions
//! that must be as large as a power of two and start at a multiple of their
//! size.

use vstd::prelude::*;
use vstd::arithmetic::div_mod::{
    lemma_fundamental_div_mod, lemma_fundamental_div_mod_converse, lemma_mod_multiples_basic,
    lemma_mod_bound, lemma_small_mod,
};
use vstd::arithmetic::power2::{lemma_pow2_adds, lemma_pow2_pos, pow2};
use vstd::bits::{lemma_u64_low_bits_mask_is_mod, low_bits_mask};

verus! {

/// The greatest multiple of `size` that is not above `addr`.
pub open spec fn align_down(addr: int, size: int) -> int {
    addr - addr % size
}

/// Whether the block of `size` bytes that starts at a multiple of `size` and
/// holds `start` reaches `end`.
pub open spec fn block_covers(start: int, end: int, size: int) -> bool {
    align_down(start, size) + size >= end
}

/// Whether the range from `start` to `end` has addresses on both sides of
/// the multiple `boundary`.
pub open spec fn straddles(start: int, end: int, boundary: int) -> bool {
    start < boundary < end
}

/// Clearing the low `exp` bits of an address aligns it down to `2^exp`.
pub proof fn lemma_clear_low_bits_aligns_down(addr: u64, size: u64, exp: nat)
    requires
        exp < 64,
        size == pow2(exp),
    ensures
        addr & !((size - 1) as u64) == align_down(addr as int, size as int),
{
    lemma_pow2_pos(exp);
    lemma_u64_low_bits_mask_is_mod(addr, exp);
    let mask: u64 = (size - 1) as u64;
    assert(mask == low_bits_mask(exp) as u64);
    assert(addr & !mask == addr - (addr & mask)) by (bit_vector);
}

/// An aligned block starts at or below the address that it is aligned down
/// from, and less than its size below it.
pub proof fn lemma_align_down_bounds(addr: int, size: int)
    requires
        size > 0,
    ensures
        align_down(addr, size) <= addr < align_down(addr, size) + size,
        align_down(addr, size) % size == 0,
        align_down(addr, size) == size * (addr / size),
{
    lemma_mod_bound(addr, size);
    lemma_fundamental_div_mod(addr, size);
    lemma_mod_multiples_basic(addr / size, size);
    assert(size * (addr / size) == (addr / size) * size) by (nonlinear_arith);
}

/// A block that reaches the end of a range from at or below its start is at
/// least as large as the range.
pub proof fn lemma_covering_block_is_large(start: int, end: int, size: int)
    requires
        size > 0,
        block_covers(start, end, size),
    ensures
        size >= end - start,
{
    lemma_align_down_bounds(start, size);
}

/// An aligned block that holds an address below a multiple of its size ends
/// at or below that multiple.
pub proof fn lemma_block_ends_by_multiple(start: int, size: int, count: int)
    requires
        size > 0,
        0 <= start < size * count,
    ensures
        align_down(start, size) + size <= size * count,
{
    lemma_align_down_bounds(start, size);
    let d = start / size;
    assert(d < count) by (nonlinear_arith)
        requires
            size > 0,
            size * d <= start,
            start < size * count,
    ;
    assert(size * d + size <= size * count) by (nonlinear_arith)
        requires
            size > 0,
            d + 1 <= count,
    ;
}

/// A power-of-two block no larger than `2^boundary_exp` covers no range that
/// straddles `2^boundary_exp`.
pub proof fn lemma_covered_range_straddles_nothing(
    start: int,
    end: int,
    exp: nat,
    boundary_exp: nat,
)
    requires
        0 <= start,
        exp <= boundary_exp,
        block_covers(start, end, pow2(exp) as int),
    ensures
        !straddles(start, end, pow2(boundary_exp) as int),
{
    lemma_pow2_pos(exp);
    lemma_pow2_adds(exp, (boundary_exp - exp) as nat);
    if start < pow2(boundary_exp) {
        lemma_block_ends_by_multiple(
            start,
            pow2(exp) as int,
            pow2((boundary_exp - exp) as nat) as int,
        );
    }
}

/// A range of 32-bit addresses that the block of `2^31` bytes around its
/// start does not cover straddles `2^31`.
pub proof fn lemma_uncovered_range_straddles(start: int, end: int)
    requires
        0 <= start <= end <= 0xffff_ffff,
        !block_covers(start, end, 0x8000_0000),
    ensures
        straddles(start, end, 0x8000_0000),
{
    if start >= 0x8000_0000 {
        lemma_fundamental_div_mod_converse(start, 0x8000_0000, 1, start - 0x8000_0000);
    } else {
        lemma_small_mod(start as nat, 0x8000_0000);
    }
}

/// A multiple of a power of two is a multiple of every smaller power of two.
pub proof fn lemma_multiple_of_smaller_pow2(addr: int, exp: nat, smaller_exp: nat)
    requires
        smaller_exp <= exp,
        addr % (pow2(exp) as int) == 0,
    ensures
        addr % (pow2(smaller_exp) as int) == 0,
{
    let size = pow2(exp) as int;
    let small = pow2(smaller_exp) as int;
    let ratio = pow2((exp - smaller_exp) as nat) as int;
    lemma_pow2_pos(exp);
    lemma_pow2_pos(smaller_exp);
    lemma_pow2_adds(smaller_exp, (exp - smaller_exp) as nat);
    lemma_fundamental_div_mod(addr, size);
    assert(addr == (ratio * (addr / size)) * small) by (nonlinear_arith)
        requires
            addr == size * (addr / size),
            size == small * ratio,
    ;
    lemma_mod_multiples_basic(ratio * (addr / size), small);
}

} // verus!
