//! Frame-building primitives: pure address computations that walk a
//! stack-pointer cursor downward while values are laid out on a fresh stack.

use vstd::prelude::*;
use vstd::arithmetic::power2::{pow2, lemma_pow2_pos};
use vstd::arithmetic::div_mod::{lemma_fundamental_div_mod, lemma_mod_multiples_basic};
use vstd::arithmetic::mul::lemma_mul_unary_negation;
use vstd::bits::{low_bits_mask, lemma_usize_low_bits_mask_is_mod};
use crate::power_of_two;

verus! {

/// Clears the low bits of `sp` so it becomes a multiple of the
/// power-of-two `n`; the result is the greatest multiple of `n` that
/// is at most `sp`.
pub fn align_down_mut(sp: usize, n: usize) -> (r: usize)
    requires
        power_of_two(n),
    ensures
        r == sp - sp % n,
        r % n == 0,
        r <= sp,
        sp - r < n,
{
    proof {
        lemma_mask_rounds_down(sp, n);
    }
    sp & !(n - 1)
}

/// Masking with the complement of `n - 1` subtracts the remainder
/// modulo the power-of-two `n`.
proof fn lemma_mask_rounds_down(sp: usize, n: usize)
    requires
        power_of_two(n),
    ensures
        n >= 1,
        (sp & !((n - 1) as usize)) == sp - sp % n,
        (sp & !((n - 1) as usize)) % n == 0,
{
    let k = choose|k: nat| k < usize::BITS && n == pow2(k);
    lemma_pow2_pos(k);
    lemma_usize_low_bits_mask_is_mod(sp, k);
    assert(low_bits_mask(k) as usize == (n - 1) as usize);
    assert(sp & ((n - 1) as usize) == sp % n);
    assert((sp & !((n - 1) as usize)) + (sp & ((n - 1) as usize)) == sp) by (bit_vector);
    lemma_fundamental_div_mod(sp as int, n as int);
    assert(sp - sp % n == n * (sp as int / n as int));
    lemma_mod_multiples_basic(sp as int / n as int, n as int);
}

/// Address arithmetic scaled by an element size of `size` bytes; `count`
/// may be negative because frame construction walks backward through
/// memory.
pub fn offset_mut(addr: usize, count: isize, size: usize) -> (r: usize)
    requires
        0 <= addr + count * size <= usize::MAX,
    ensures
        r == addr + count * size,
{
    if count >= 0 {
        addr + (count as usize) * size
    } else {
        let mag: usize = ((-(count + 1)) as usize) + 1;
        proof {
            lemma_mul_unary_negation(count as int, size as int);
            assert(mag * size == -(count * size));
        }
        addr - mag * size
    }
}

/// The address a push lands on: the cursor walks down by `size` bytes
/// and is then aligned down to a multiple of `align`.
pub open spec fn push_dest(sp: int, size: int, align: int) -> int {
    let dec = sp - size;
    dec - dec % align
}

/// Walks the cursor `sp` down by `size` bytes, aligns it down to the
/// power-of-two `align`, and leaves the cursor at the resulting address,
/// which is returned: the slot a value of that size and alignment is
/// written into, chained so several pushes build one frame. No bound
/// against a stack's limit is checked here: the caller sizes the stack
/// so the frame never reaches the guard page.
pub fn push(sp: &mut usize, size: usize, align: usize) -> (r: usize)
    requires
        power_of_two(align),
        size <= *old(sp),
    ensures
        r == push_dest(*old(sp) as int, size as int, align as int),
        r % align == 0,
        r + size <= *old(sp),
        r <= *old(sp),
        *final(sp) == r,
{
    let a = *sp;
    let b = offset_mut(a, -1, size);
    let c = align_down_mut(b, align);
    *sp = c;
    c
}

/// A chain of pushes only ever moves the cursor downward: each push
/// lands at or below where the cursor stood before it, so the cursor
/// never increases across repeated pushes.
pub proof fn lemma_push_monotonic(sp: int, size: int, align: int)
    requires
        size >= 0,
        align >= 1,
    ensures
        push_dest(sp, size, align) <= sp - size <= sp,
{
}

/// The slot a one-shot closure crosses the raw-memory boundary in: the
/// value goes in when the frame is built and comes back out by a single
/// destructive read. After that read the slot is empty, so the value
/// can never be consumed twice.
pub struct OnceSlot<T> {
    value: Option<T>,
}

impl<T> OnceSlot<T> {
    /// The value the slot still holds, if it has not been taken.
    pub closed spec fn stored(&self) -> Option<T> {
        self.value
    }

    /// A slot holding `value`, ready to be consumed once.
    pub fn new(value: T) -> (s: Self)
        ensures
            s.stored() == Some(value),
    {
        OnceSlot { value: Some(value) }
    }

    /// A slot with nothing in it.
    pub fn empty() -> (s: Self)
        ensures
            s.stored() is None,
    {
        OnceSlot { value: None }
    }

    /// Destructively reads the value out: the slot is empty afterwards,
    /// so a second take yields nothing and the value is consumed
    /// exactly once.
    pub fn take(&mut self) -> (r: Option<T>)
        ensures
            r == old(self).stored(),
            final(self).stored() is None,
    {
        self.value.take()
    }

    /// Whether the slot still holds its value.
    pub fn occupied(&self) -> (r: bool)
        ensures
            r == (self.stored() is Some),
    {
        self.value.is_some()
    }
}

} // verus!
