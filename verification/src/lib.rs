//! Memory substrate for stackful coroutines: page-aligned execution stacks
//! with a protected guard page at the low end, and the address arithmetic
//! that lays out an initial call frame on such a stack.

use vstd::prelude::*;
use vstd::arithmetic::power2::{pow2, lemma_pow2_pos};

pub mod frame;
pub mod mem;
pub mod stacks;

verus! {

/// The set of byte addresses in the half-open region starting at
/// `base` with `len` bytes.
pub open spec fn addr_range(base: int, len: int) -> Set<int> {
    Set::new(|a: int| base <= a < base + len)
}

/// True when `n` is a power of two that fits in a `usize`, so that
/// `n - 1` is the mask of all bits below the single set bit.
pub open spec fn power_of_two(n: usize) -> bool {
    exists|k: nat| k < usize::BITS && n == pow2(k)
}

/// A power of two is positive.
pub proof fn lemma_power_of_two_pos(n: usize)
    requires
        power_of_two(n),
    ensures
        n >= 1,
{
    let k = choose|k: nat| k < usize::BITS && n == pow2(k);
    lemma_pow2_pos(k);
}

} // verus!
