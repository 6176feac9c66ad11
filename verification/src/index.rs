//! Index arithmetic on a ring whose number of slots is a power of two.
//!
//! A ring of `N` slots is described by its mask `N - 1`.  Positions run from
//! `0` to the mask; stepping past the last position wraps to `0`.  The
//! executable code steps with a bitwise AND against the mask; [`successor`]
//! and [`gap`] say what that computes.

use vstd::prelude::*;
use vstd::arithmetic::div_mod::lemma_mod_add_multiples_vanish;
use vstd::arithmetic::div_mod::lemma_mod_self_0;
use vstd::arithmetic::div_mod::lemma_small_mod;

verus! {

/// `n` has exactly one bit set.
pub open spec fn is_power_of_two(n: usize) -> bool {
    n > 0 && n & ((n - 1) as usize) == 0
}

/// `mask` is one less than a power of two that fits the machine word.
pub open spec fn is_mask(mask: usize) -> bool {
    mask < usize::MAX && is_power_of_two((mask + 1) as usize)
}

/// The largest number of slots a ring can be asked for: the largest power of
/// two that a `usize` holds.
pub open spec fn max_capacity() -> usize {
    (usize::MAX / 2 + 1) as usize
}

/// The least power of two that is at least `requested` (and at least 1).
pub open spec fn rounded(requested: nat) -> nat
    decreases requested,
{
    if requested <= 1 {
        1
    } else {
        2 * rounded((requested + 1) / 2)
    }
}

/// The position after `i`, wrapping to `0` after the last one.
pub open spec fn successor(i: usize, mask: usize) -> usize {
    if i >= mask {
        0
    } else {
        (i + 1) as usize
    }
}

/// How many steps lead from `from` forward to `to`.
pub open spec fn gap(from: usize, to: usize, mask: usize) -> int {
    if to >= from {
        to - from
    } else {
        to + mask + 1 - from
    }
}

/// Between two distinct powers of two lies at least a factor of two.
pub proof fn lemma_powers_of_two_spread(p: usize, q: usize)
    requires
        is_power_of_two(p),
        is_power_of_two(q),
        p < q,
    ensures
        2 * p <= q,
{
    assert(2 * p <= q) by (bit_vector)
        requires
            p > 0,
            q > 0,
            p & ((p - 1) as usize) == 0,
            q & ((q - 1) as usize) == 0,
            p < q,
    ;
}

/// Doubling a power of two gives a power of two, as long as it fits.
pub proof fn lemma_double_power_of_two(p: usize)
    requires
        is_power_of_two(p),
        2 * p <= usize::MAX,
    ensures
        is_power_of_two((2 * p) as usize),
{
    let d = (2 * p) as usize;
    assert(d > 0 && d & ((d - 1) as usize) == 0) by (bit_vector)
        requires
            p > 0,
            p & ((p - 1) as usize) == 0,
            d == 2 * p,
    ;
}

/// `rounded(c)` is either 1 or even, is at least `c`, and is less than `2 * c`.
pub proof fn lemma_rounded_bounds(requested: nat)
    requires
        requested >= 1,
    ensures
        requested <= rounded(requested) < 2 * requested,
        rounded(requested) == 1 || rounded(requested) % 2 == 0,
    decreases requested,
{
    if requested > 1 {
        let half = (requested + 1) / 2;
        lemma_rounded_bounds(half);
    }
}

/// `rounded(c)` is a power of two whenever `c` is at most the largest one.
pub proof fn lemma_rounded_is_power_of_two(requested: nat)
    requires
        1 <= requested <= max_capacity(),
    ensures
        rounded(requested) <= usize::MAX,
        is_power_of_two(rounded(requested) as usize),
    decreases requested,
{
    if requested <= 1 {
        assert(is_power_of_two(1usize)) by {
            assert(1usize & ((1usize - 1) as usize) == 0) by (bit_vector);
        }
    } else {
        let half = (requested + 1) / 2;
        lemma_rounded_is_power_of_two(half);
        lemma_rounded_bounds(half);
        lemma_rounded_bounds(requested);
        let h = rounded(half) as usize;
        assert(2 * h <= usize::MAX);
        lemma_double_power_of_two(h);
    }
}

/// `rounded(c)` is the least power of two that is at least `c`.
pub proof fn lemma_rounded_is_least(requested: nat, p: usize)
    requires
        1 <= requested <= max_capacity(),
        is_power_of_two(p),
        requested <= p,
    ensures
        rounded(requested) <= p,
{
    lemma_rounded_bounds(requested);
    lemma_rounded_is_power_of_two(requested);
    let r = rounded(requested) as usize;
    if p < r {
        lemma_powers_of_two_spread(p, r);
    }
}

/// Stepping with a bitwise AND against the mask is stepping with wrap-around.
pub proof fn lemma_masked_increment(i: usize, mask: usize)
    requires
        is_mask(mask),
        i <= mask,
    ensures
        ((i + 1) as usize) & mask == successor(i, mask),
        successor(i, mask) <= mask,
{
    assert(((i + 1) as usize) & mask == (if i >= mask {
        0usize
    } else {
        (i + 1) as usize
    })) by (bit_vector)
        requires
            ((mask + 1) as usize) > mask,
            i <= mask,
            ((mask + 1) as usize) & ((((mask + 1) as usize) - 1) as usize) == 0,
    ;
}

/// Stepping with wrap-around is incrementing modulo the number of slots.
pub proof fn lemma_successor_is_modular(i: usize, mask: usize)
    requires
        mask < usize::MAX,
        i <= mask,
    ensures
        successor(i, mask) as int == (i + 1) % (mask + 1),
{
    if i == mask {
        lemma_mod_self_0(mask + 1);
    } else {
        lemma_small_mod((i + 1) as nat, (mask + 1) as nat);
    }
}

/// The number of steps between two positions is their difference modulo the
/// number of slots.
pub proof fn lemma_gap_is_modular(from: usize, to: usize, mask: usize)
    requires
        mask < usize::MAX,
        from <= mask,
        to <= mask,
    ensures
        gap(from, to, mask) == (to - from) % (mask + 1),
        0 <= gap(from, to, mask) <= mask,
{
    if to >= from {
        lemma_small_mod((to - from) as nat, (mask + 1) as nat);
    } else {
        lemma_mod_add_multiples_vanish(to - from, mask + 1);
        lemma_small_mod((to + mask + 1 - from) as nat, (mask + 1) as nat);
    }
}

/// Rounds a requested capacity up to the number of slots the ring will have.
pub fn round_up(requested: usize) -> (slots: usize)
    requires
        0 < requested <= max_capacity(),
    ensures
        slots == rounded(requested as nat),
        is_power_of_two(slots),
        requested <= slots < 2 * requested,
{
    let mut slots: usize = 1;
    proof {
        assert(1usize & ((1usize - 1) as usize) == 0) by (bit_vector);
    }
    while slots < requested
        invariant
            0 < requested <= max_capacity(),
            is_power_of_two(slots),
            slots < 2 * requested,
        decreases 2 * requested - slots,
    {
        proof {
            lemma_double_power_of_two(slots);
        }
        slots = 2 * slots;
    }
    proof {
        let least = rounded(requested as nat);
        lemma_rounded_bounds(requested as nat);
        lemma_rounded_is_power_of_two(requested as nat);
        if slots < least {
            lemma_powers_of_two_spread(slots, least as usize);
        }
        if least < slots {
            lemma_powers_of_two_spread(least as usize, slots);
        }
    }
    slots
}

/// The position after `i` on the ring with the given mask.
pub fn next_index(i: usize, mask: usize) -> (next: usize)
    requires
        is_mask(mask),
        i <= mask,
    ensures
        next == successor(i, mask),
        next == (i + 1) % (mask + 1),
        next <= mask,
{
    proof {
        lemma_masked_increment(i, mask);
        lemma_successor_is_modular(i, mask);
    }
    (i + 1) & mask
}

} // verus!
