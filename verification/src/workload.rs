//! Synthetic CPU-bound workloads.
//!
//! Both functions multiply the integers below `difficulty` together with
//! wrapping arithmetic, so the cost grows linearly with `difficulty` and
//! the call never fails, however large the argument.

use vstd::prelude::*;
use vstd::arithmetic::div_mod::lemma_mul_mod_noop_left;
use vstd::arithmetic::div_mod::lemma_small_mod;

verus! {

/// The product of all integers `k` with `1 <= k < n`; `1` when there are none.
pub open spec fn product_below(n: nat) -> nat
    decreases n,
{
    if n <= 1 {
        1
    } else {
        ((n - 1) as nat) * product_below((n - 1) as nat)
    }
}

/// The number of values a `usize` can take.
pub open spec fn word_range() -> nat {
    (usize::MAX as nat) + 1
}

/// What a workload of the given difficulty evaluates to: the product of the
/// integers below `difficulty`, reduced to the machine word.
pub open spec fn workload_result(difficulty: usize) -> nat {
    product_below(difficulty as nat) % word_range()
}

/// Multiplying one more factor into a reduced product gives the reduced
/// product of the longer range.
proof fn lemma_product_step(acc: usize, i: usize)
    requires
        1 <= i,
        acc as nat == product_below(i as nat) % word_range(),
    ensures
        acc.wrapping_mul(i) as nat == product_below((i + 1) as nat) % word_range(),
{
    let m = word_range() as int;
    let p = product_below(i as nat) as int;
    assert(product_below((i + 1) as nat) == (i as nat) * product_below(i as nat));
    assert((p % m) * (i as int) % m == (p * (i as int)) % m) by {
        lemma_mul_mod_noop_left(p, i as int, m);
    }
    assert(p * (i as int) == (i as int) * p) by (nonlinear_arith);
    assert((acc as nat) * (i as nat) == (p % m) * (i as int)) by (nonlinear_arith)
        requires
            acc as int == p % m,
    ;
}

fn multiply_below(difficulty: usize) -> (product: usize)
    ensures
        product as nat == workload_result(difficulty),
{
    let mut acc: usize = 1;
    let mut i: usize = 1;
    proof {
        lemma_small_mod(1, word_range());
    }
    while i < difficulty
        invariant
            1 <= i,
            i <= difficulty || i == 1,
            acc as nat == product_below(i as nat) % word_range(),
        decreases difficulty - i,
    {
        proof {
            lemma_product_step(acc, i);
        }
        acc = acc.wrapping_mul(i);
        i = i + 1;
    }
    assert(product_below(i as nat) == product_below(difficulty as nat));
    acc
}

/// Stands in for the cost of producing one value.
pub fn produce_value(difficulty: usize) -> (value: usize)
    ensures
        value as nat == workload_result(difficulty),
{
    multiply_below(difficulty)
}

/// Stands in for the cost of consuming one value.
pub fn consume_value(difficulty: usize) -> (value: usize)
    ensures
        value as nat == workload_result(difficulty),
{
    multiply_below(difficulty)
}

} // verus!
