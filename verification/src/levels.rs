//! Levels of the blur chain: how many there are, which texture slot each one
//! lives in, and at what resolution it works.
//!
//! Level 0 is the region at full resolution. Each further level is one
//! downsample step deeper. The chain of texture slots is short and fixed;
//! levels beyond its end take turns on its last two slots.

use vstd::prelude::*;
use vstd::arithmetic::power2::{lemma2_to64, lemma_pow2_strictly_increases, lemma_pow2_unfold, pow2};
use crate::geometry::Size;

verus! {

/// The deepest level a blur may reach. Larger requests are clamped to it.
pub const MAX_LEVELS: u32 = 16;

/// The number of texture slots of a chain: the base slot and five below it.
pub const SLOTS: usize = 6;

/// The number of halvings after which the working resolution stays put.
pub const DEEPEST_SHIFT: u32 = 4;

/// The largest power of two that a `u32` holds.
pub const LARGEST_POWER: u32 = 0x8000_0000;

/// The number of passes that a request for `passes` runs.
pub open spec fn clamped_passes(passes: u32) -> u32 {
    if passes > MAX_LEVELS {
        MAX_LEVELS
    } else {
        passes
    }
}

/// The number of halvings between the region and the resolution of `level`.
pub open spec fn level_shift(level: nat) -> nat {
    if level > DEEPEST_SHIFT {
        DEEPEST_SHIFT as nat
    } else {
        level
    }
}

/// The factor by which `level` is smaller than the region, per axis.
pub open spec fn level_divisor(level: nat) -> nat {
    pow2(level_shift(level))
}

/// The slot of the chain that holds `level`. Levels up to the end of the
/// chain have a slot each; deeper ones alternate between the last two.
pub open spec fn level_slot(level: nat) -> nat {
    if level < SLOTS {
        level
    } else if level % 2 == 0 {
        (SLOTS - 2) as nat
    } else {
        (SLOTS - 1) as nat
    }
}

/// A texture dimension: never less than one pixel.
pub open spec fn at_least_one(pixels: int) -> u32 {
    if pixels < 1 {
        1
    } else {
        pixels as u32
    }
}

/// The size of the texture that `level` works on, for a region of `region`.
pub open spec fn level_size(region: Size, level: nat) -> Size {
    Size {
        width: at_least_one(region.width as int / level_divisor(level) as int),
        height: at_least_one(region.height as int / level_divisor(level) as int),
    }
}

/// The smallest power of two that is not below `n`.
pub open spec fn power_of_two_above(n: nat) -> nat
    decreases n,
{
    if n <= 1 {
        1
    } else {
        2 * power_of_two_above(((n + 1) / 2) as nat)
    }
}

/// A dimension rounded up to a power of two, or the largest power of two where
/// the next one does not fit.
pub open spec fn aligned_dimension(pixels: u32) -> u32 {
    if pixels > LARGEST_POWER {
        LARGEST_POWER
    } else {
        power_of_two_above(pixels as nat) as u32
    }
}

/// A size with both dimensions rounded up to a power of two.
pub open spec fn aligned_size(size: Size) -> Size {
    Size { width: aligned_dimension(size.width), height: aligned_dimension(size.height) }
}

/// The number of passes that a request for `passes` runs.
pub fn clamp_passes(passes: u32) -> (effective: u32)
    ensures
        effective == clamped_passes(passes),
{
    if passes > MAX_LEVELS {
        MAX_LEVELS
    } else {
        passes
    }
}

/// The factor by which `level` is smaller than the region, per axis.
pub fn divisor_of_level(level: u32) -> (divisor: u32)
    ensures
        divisor == level_divisor(level as nat),
        1 <= divisor <= 16,
{
    proof {
        lemma2_to64();
    }
    if level == 0 {
        1
    } else if level == 1 {
        2
    } else if level == 2 {
        4
    } else if level == 3 {
        8
    } else {
        16
    }
}

/// The slot of the chain that holds `level`.
pub fn slot_of_level(level: u32) -> (slot: usize)
    ensures
        slot == level_slot(level as nat),
        slot < SLOTS,
{
    if level < 6 {
        level as usize
    } else if level % 2 == 0 {
        4
    } else {
        5
    }
}

/// The size of the texture that `level` works on, for a region of `region`.
pub fn size_at_level(region: Size, level: u32) -> (size: Size)
    ensures
        size == level_size(region, level as nat),
        size.width >= 1,
        size.height >= 1,
{
    let divisor = divisor_of_level(level);
    let width = region.width / divisor;
    let height = region.height / divisor;
    Size {
        width: if width < 1 { 1 } else { width },
        height: if height < 1 { 1 } else { height },
    }
}

/// Two powers of two of which each is the smallest one not below `n` are the
/// same power.
proof fn lemma_smallest_power_is_unique(n: nat, i: nat, j: nat)
    requires
        n <= pow2(i),
        n <= pow2(j),
        i > 0 ==> pow2((i - 1) as nat) < n,
        j > 0 ==> pow2((j - 1) as nat) < n,
    ensures
        i == j,
{
    if i < j {
        if i < j - 1 {
            lemma_pow2_strictly_increases(i, (j - 1) as nat);
        }
    } else if j < i {
        if j < i - 1 {
            lemma_pow2_strictly_increases(j, (i - 1) as nat);
        }
    }
}

/// `power_of_two_above(n)` is a power of two, not below `n`, and its half is
/// below `n`.
proof fn lemma_power_of_two_above(n: nat) -> (e: nat)
    ensures
        power_of_two_above(n) == pow2(e),
        n <= pow2(e),
        e > 0 ==> pow2((e - 1) as nat) < n,
    decreases n,
{
    if n <= 1 {
        lemma2_to64();
        0
    } else {
        let half = ((n + 1) / 2) as nat;
        let below = lemma_power_of_two_above(half);
        lemma_pow2_unfold(below + 1);
        if below > 0 {
            lemma_pow2_unfold(below);
        } else {
            lemma2_to64();
        }
        below + 1
    }
}

/// A dimension rounded up to a power of two, saturating at the largest one.
pub fn align_dimension(pixels: u32) -> (aligned: u32)
    ensures
        aligned == aligned_dimension(pixels),
{
    if pixels > LARGEST_POWER {
        return LARGEST_POWER;
    }
    let mut power: u32 = 1;
    let ghost mut exponent: nat = 0;
    proof {
        lemma2_to64();
    }
    while power < pixels
        invariant
            pixels <= LARGEST_POWER,
            power == pow2(exponent),
            exponent <= 31,
            exponent > 0 ==> pow2((exponent - 1) as nat) < pixels,
        decreases LARGEST_POWER - power,
    {
        proof {
            lemma_pow2_unfold(exponent + 1);
            lemma2_to64();
            if exponent == 31 {
                assert(pow2(31) == 0x8000_0000);
            } else {
                lemma_pow2_strictly_increases(exponent + 1, 32);
                if exponent + 1 < 31 {
                    lemma_pow2_strictly_increases(exponent + 1, 31);
                }
            }
            exponent = exponent + 1;
        }
        power = power * 2;
    }
    proof {
        let e = lemma_power_of_two_above(pixels as nat);
        lemma_smallest_power_is_unique(pixels as nat, e, exponent);
    }
    power
}

/// A size with both dimensions rounded up to a power of two.
pub fn align_size(size: Size) -> (aligned: Size)
    ensures
        aligned == aligned_size(size),
{
    Size { width: align_dimension(size.width), height: align_dimension(size.height) }
}

/// However deep a blur goes, its levels stay within the fixed chain of slots.
pub proof fn law_slots_are_bounded(level: nat)
    ensures
        level_slot(level) < SLOTS,
{
}

/// Two levels next to each other never share a slot, so no pass reads the
/// texture it writes.
pub proof fn law_neighbours_use_distinct_slots(level: nat)
    ensures
        level_slot(level) != level_slot(level + 1),
{
}

/// A level beyond the end of the chain works at the resolution of the slot it
/// borrows: the size of a level is the size of the level its slot stands for.
pub proof fn law_slot_has_level_resolution(region: Size, level: nat)
    ensures
        level_size(region, level_slot(level)) == level_size(region, level),
{
}

/// Every level has at least one pixel per axis, and none is larger than the
/// level above it.
pub proof fn law_levels_shrink(region: Size, level: nat)
    ensures
        level_size(region, level).width >= 1,
        level_size(region, level).height >= 1,
        level_size(region, level + 1).width <= level_size(region, level).width,
        level_size(region, level + 1).height <= level_size(region, level).height,
{
    lemma2_to64();
    let a = level_divisor(level) as int;
    let b = level_divisor(level + 1) as int;
    assert(b == a || b == 2 * a);
    let w = region.width as int;
    let h = region.height as int;
    assert(w / b <= w / a) by (nonlinear_arith)
        requires
            w >= 0,
            a >= 1,
            b == a || b == 2 * a,
    ;
    assert(h / b <= h / a) by (nonlinear_arith)
        requires
            h >= 0,
            a >= 1,
            b == a || b == 2 * a,
    ;
}

/// Rounding a dimension up yields a power of two that is not below it, unless
/// the dimension is beyond the largest power of two; and a power of two stays
/// as it is.
pub proof fn law_aligned_dimension(pixels: u32)
    ensures
        exists|e: nat| e <= 31 && aligned_dimension(pixels) == #[trigger] pow2(e),
        pixels <= LARGEST_POWER ==> pixels <= aligned_dimension(pixels),
        pixels <= LARGEST_POWER && pixels > 1 ==> aligned_dimension(pixels) / 2 < pixels,
        aligned_dimension(aligned_dimension(pixels)) == aligned_dimension(pixels),
{
    lemma2_to64();
    if pixels > LARGEST_POWER {
        assert(aligned_dimension(pixels) == pow2(31));
        let e = lemma_power_of_two_above(LARGEST_POWER as nat);
        lemma_smallest_power_is_unique(LARGEST_POWER as nat, e, 31);
    } else {
        let e = lemma_power_of_two_above(pixels as nat);
        if e > 31 {
            lemma_pow2_strictly_increases(31, (e - 1) as nat + 1);
            if e - 1 > 31 {
                lemma_pow2_strictly_increases(31, (e - 1) as nat);
            }
        }
        assert(e <= 31);
        if e < 31 {
            lemma_pow2_strictly_increases(e, 31);
        }
        assert(aligned_dimension(pixels) == pow2(e));
        if e > 0 {
            lemma_pow2_unfold(e);
        }
        let again = lemma_power_of_two_above(pow2(e));
        lemma_smallest_power_is_unique(pow2(e), again, e);
    }
}

} // verus!
