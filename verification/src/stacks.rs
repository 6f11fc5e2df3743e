//! Stacks backed by a memory-mapping capability: a stateless source
//! turns a requested byte size into a page-rounded region whose lowest
//! page is an inaccessible guard page.

use vstd::prelude::*;
use vstd::arithmetic::div_mod::{
    lemma_mod_bound,
    lemma_fundamental_div_mod,
    lemma_mod_multiples_basic,
    lemma_add_mod_noop,
};
use vstd::arithmetic::mul::{
    lemma_mul_basics,
    lemma_mul_is_commutative,
    lemma_mul_is_distributive_add_other_way,
    lemma_mul_inequality,
    lemma_mul_strict_inequality_converse,
};
use crate::{addr_range, lemma_power_of_two_pos, power_of_two};
use crate::frame::align_down_mut;
use crate::mem::MemorySource;

verus! {

/// Why stack acquisition failed: the mapping step or the
/// guard-protection step, each carrying the OS error the backend
/// reported.
#[derive(Clone, Copy, Debug, PartialEq, Eq, Structural)]
pub enum StackError {
    MapFailed(i32),
    ProtectFailed(i32),
}

/// A destruction-time unmap failure: the region that could not be
/// released and the OS error. Releasing must fully succeed; a caller
/// that sees this value treats the mapping state as corrupted and
/// terminates rather than continue.
#[derive(Clone, Copy, Debug, PartialEq, Eq, Structural)]
pub struct UnmapError {
    pub ptr: usize,
    pub len: usize,
    pub code: i32,
}

/// One contiguous, page-aligned memory region used as an execution
/// stack. The lowest page is the guard page: it is counted in the
/// length but excluded from the usable range `limit()..top()`, so an
/// overflow past `limit()` faults instead of corrupting neighbours.
#[derive(Debug)]
pub struct Stack {
    ptr: usize,
    len: usize,
    page_size: usize,
}

/// The length acquired for a request of `size` usable bytes from pages
/// of `page` bytes: the requested size rounded up to whole pages, plus
/// one more page for the guard.
pub open spec fn stack_len(size: int, page: int) -> int {
    ((size + page - 1) / page) * page + page
}

impl Stack {
    /// The base address of the region: its lowest byte, inside the
    /// guard page.
    pub closed spec fn base_spec(&self) -> usize {
        self.ptr
    }

    /// The length of the region in bytes, guard page included.
    pub closed spec fn len_spec(&self) -> usize {
        self.len
    }

    /// The page size the region was carved from.
    pub closed spec fn page_size_spec(&self) -> usize {
        self.page_size
    }

    /// One past the highest address: the initial frame-building cursor,
    /// since the stack grows downward.
    pub open spec fn top_spec(&self) -> int {
        self.base_spec() + self.len_spec()
    }

    /// The lowest usable address, directly above the guard page.
    pub open spec fn limit_spec(&self) -> int {
        self.base_spec() + self.page_size_spec()
    }

    /// The byte addresses of the whole region, guard page included.
    pub open spec fn range(&self) -> Set<int> {
        addr_range(self.base_spec() as int, self.len_spec() as int)
    }

    /// Well-formedness: a page-aligned base, a whole number of pages
    /// with room for the guard page plus usable space, all inside the
    /// address space.
    pub open spec fn wf(&self) -> bool {
        &&& power_of_two(self.page_size_spec())
        &&& self.len_spec() % self.page_size_spec() == 0
        &&& self.len_spec() >= 2 * self.page_size_spec()
        &&& self.base_spec() % self.page_size_spec() == 0
        &&& self.base_spec() + self.len_spec() <= usize::MAX
    }

    /// The highest address of the region: where frame building starts.
    pub fn top(&mut self) -> (r: usize)
        requires
            old(self).wf(),
        ensures
            r == old(self).top_spec(),
            *final(self) == *old(self),
    {
        self.ptr + self.len
    }

    /// The lowest usable address; anything below it and at or above the
    /// base lies in the guard page.
    pub fn limit(&self) -> (r: usize)
        requires
            self.wf(),
        ensures
            r == self.limit_spec(),
    {
        proof {
            lemma_power_of_two_pos(self.page_size);
        }
        self.ptr + self.page_size
    }

    /// The length of the region in bytes, guard page included.
    pub fn len(&self) -> (r: usize)
        ensures
            r == self.len_spec(),
    {
        self.len
    }

    /// The page size the region was carved from.
    pub fn page_size(&self) -> (r: usize)
        ensures
            r == self.page_size_spec(),
    {
        self.page_size
    }

    /// Releases the whole region back to its source. On failure the
    /// region and OS error are reported and nothing was released; the
    /// caller treats that as fatal, since a partially released or still
    /// guarded region must not be reused.
    pub fn destroy<M: MemorySource>(self, source: &mut M) -> (r: Result<(), UnmapError>)
        requires
            old(source).inv(),
        ensures
            final(source).inv(),
            final(source).page_size_spec() == old(source).page_size_spec(),
            r is Ok ==> final(source).live() == old(source).live().difference(self.range()),
            r matches Err(e) ==> e.ptr == self.base_spec() && e.len == self.len_spec(),
            r is Err ==> final(source).live() == old(source).live(),
    {
        if source.unmap_stack(self.ptr, self.len) {
            Ok(())
        } else {
            Err(UnmapError { ptr: self.ptr, len: self.len, code: source.last_error() })
        }
    }
}

/// Stateless factory that turns a requested byte size into a
/// page-rounded, guard-protected region drawn from a memory source.
#[derive(Clone, Copy)]
pub struct StackSource;

impl StackSource {
    /// Acquires a stack with at least `size` usable bytes: the request
    /// is rounded up to whole pages, one more page is mapped below the
    /// usable span, and that lowest page is made inaccessible. If the
    /// guard protection fails, the fresh mapping is released before the
    /// error is reported, so no partial stack escapes.
    pub fn get_stack<M: MemorySource>(&mut self, source: &mut M, size: usize) -> (r: Result<
        Stack,
        StackError,
    >)
        requires
            old(source).inv(),
            size >= 1,
            size + 2 * old(source).page_size_spec() - 1 <= usize::MAX,
        ensures
            final(source).inv(),
            final(source).page_size_spec() == old(source).page_size_spec(),
            r matches Ok(stack) ==> stack.wf(),
            r matches Ok(stack) ==> stack.page_size_spec() == old(source).page_size_spec(),
            r matches Ok(stack) ==> stack.len_spec() == stack_len(
                size as int,
                old(source).page_size_spec() as int,
            ),
            r matches Ok(stack) ==> stack.top_spec() - stack.limit_spec() >= size,
            r matches Ok(stack) ==> stack.range().disjoint(old(source).live()),
            r matches Ok(stack) ==> final(source).live() == old(source).live().union(
                stack.range(),
            ),
            r matches Err(StackError::MapFailed(_)) ==> final(source).live() == old(
                source,
            ).live(),
            r is Err ==> old(source).live().subset_of(final(source).live()),
    {
        let page_size = source.page_size();
        proof {
            lemma_power_of_two_pos(page_size);
        }
        // round the requested size up to a whole number of pages,
        // using the fact that the page size is a power of two,
        // then add the guard page below
        let rounded = align_down_mut(size + (page_size - 1), page_size);
        let len = rounded + page_size;
        proof {
            lemma_rounding(size as int, page_size as int, rounded as int);
        }
        let ptr = match source.map_stack(len) {
            None => {
                return Err(StackError::MapFailed(source.last_error()));
            },
            Some(ptr) => ptr,
        };
        if source.protect_stack(ptr) {
            Ok(Stack { ptr, len, page_size })
        } else {
            // release the mapping before reporting: no partial stack
            // may survive a failed guard protection
            let code = source.last_error();
            let _released = source.unmap_stack(ptr, len);
            Err(StackError::ProtectFailed(code))
        }
    }
}

/// Rounding the request down from one page less than the next boundary
/// yields the page multiple directly below the guard page: it covers
/// `size`, stays within one page above it, and keeps page alignment.
proof fn lemma_rounding(size: int, page: int, rounded: int)
    requires
        page >= 1,
        size >= 1,
        rounded == (size + page - 1) - (size + page - 1) % page,
        rounded % page == 0,
    ensures
        size <= rounded <= size + page - 1,
        rounded >= page,
        rounded + page == stack_len(size, page),
        (rounded + page) % page == 0,
{
    let q = (size + page - 1) / page;
    lemma_fundamental_div_mod(size + page - 1, page);
    lemma_mod_bound(size + page - 1, page);
    lemma_mul_is_commutative(q, page);
    assert(rounded == page * q);
    lemma_mul_basics(page);
    if q <= 0 {
        lemma_mul_inequality(q, 0, page);
        assert(false);
    }
    lemma_mul_inequality(1, q, page);
    lemma_add_mod_noop(rounded, page, page);
    lemma_small_mod_page(page);
}

/// `page % page == 0`, stated once for reuse.
proof fn lemma_small_mod_page(page: int)
    requires
        page >= 1,
    ensures
        page % page == 0,
        0int % page == 0,
{
    lemma_mul_basics(page);
    lemma_mod_multiples_basic(1, page);
    lemma_mod_multiples_basic(0, page);
}

/// The acquired length is minimal: it is a page multiple covering the
/// request plus its guard page, and every page multiple that covers
/// them is at least as large.
pub proof fn lemma_len_is_minimal(size: int, page: int, other: int)
    requires
        size >= 1,
        page >= 1,
    ensures
        stack_len(size, page) % page == 0,
        stack_len(size, page) >= size + page,
        other % page == 0 && other >= size + page ==> other >= stack_len(size, page),
{
    let q = (size + page - 1) / page;
    let rounded = q * page;
    lemma_mul_is_commutative(q, page);
    lemma_fundamental_div_mod(size + page - 1, page);
    lemma_mod_bound(size + page - 1, page);
    assert(rounded == (size + page - 1) - (size + page - 1) % page);
    lemma_mul_basics(page);
    lemma_mod_multiples_basic(q, page);
    lemma_add_mod_noop(rounded, page, page);
    lemma_small_mod_page(page);
    assert(stack_len(size, page) % page == 0);
    assert(rounded >= size);
    if other % page == 0 && other >= size + page {
        let k = other / page;
        lemma_fundamental_div_mod(other, page);
        assert(other == k * page);
        // other exceeds q * page, so k exceeds q, so other covers
        // one page more than q pages
        assert(q * page < k * page);
        lemma_mul_strict_inequality_converse(q, k, page);
        lemma_mul_inequality(q + 1, k, page);
        assert((q + 1) * page == q * page + page) by {
            lemma_mul_is_distributive_add_other_way(page, q, 1);
            lemma_mul_basics(page);
        }
    }
}

/// The usable bounds follow the region: the limit sits exactly one
/// page above the base, so it equals `top - len + page_size`, and the
/// usable span `top - limit` is the length minus the guard page.
pub proof fn lemma_stack_bounds(s: Stack)
    requires
        s.wf(),
    ensures
        s.limit_spec() == s.top_spec() - s.len_spec() + s.page_size_spec(),
        s.top_spec() - s.limit_spec() == s.len_spec() - s.page_size_spec(),
{
}

/// Stacks acquired one after the other occupy disjoint address ranges:
/// the first stack's region is still part of the live mapped set when
/// the second is acquired, and a fresh mapping overlaps nothing live.
pub proof fn lemma_stacks_disjoint(live: Set<int>, first: Stack, second: Stack)
    requires
        first.range().subset_of(live),
        second.range().disjoint(live),
    ensures
        first.range().disjoint(second.range()),
{
    assert forall|a: int| first.range().contains(a) implies !second.range().contains(a) by {
        assert(live.contains(a));
    }
}

} // verus!
