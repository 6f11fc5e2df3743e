//! The OS capability layer a stack source draws on, as a small trait —
//! map a fresh region, make its lowest page inaccessible, unmap a
//! region, report the page size — together with a verified simulated
//! backend that hands out fresh disjoint address ranges.

use vstd::prelude::*;
use vstd::arithmetic::div_mod::{lemma_add_mod_noop, lemma_small_mod};
use crate::{addr_range, lemma_power_of_two_pos, power_of_two};

verus! {

/// The mapping capability behind a stack source. `live()` models the
/// byte addresses of all currently mapped regions: a fresh mapping never
/// overlaps them, and unmapping gives its range back. An OS-backed
/// implementation performs the real system calls unchecked; `SimSource`
/// is the verified in-crate backend.
pub trait MemorySource: Sized {
    /// Backend-specific well-formedness, carried through every call.
    /// The default is trivial so that an unverified backend outside
    /// this crate only supplies the executable operations; a verified
    /// backend overrides it with its real invariant.
    open spec fn inv(&self) -> bool {
        true
    }

    /// The page size this backend serves; a verified backend overrides
    /// this with the size it was built over.
    open spec fn page_size_spec(&self) -> usize {
        4096
    }

    /// The byte addresses inside currently mapped regions; a verified
    /// backend overrides this with its mapping model.
    open spec fn live(&self) -> Set<int> {
        Set::empty()
    }

    /// Reports the platform page size: a power of two, the unit that
    /// mapping lengths and base addresses are aligned to.
    fn page_size(&self) -> (r: usize)
        requires
            self.inv(),
        ensures
            r == self.page_size_spec(),
            power_of_two(r),
    ;

    /// Maps a fresh region of `len` bytes. A returned base address is
    /// page-aligned, the region lies inside the address space, and it
    /// overlaps nothing that was already mapped.
    fn map_stack(&mut self, len: usize) -> (r: Option<usize>)
        requires
            old(self).inv(),
            len >= 1,
            len % old(self).page_size_spec() == 0,
        ensures
            final(self).inv(),
            final(self).page_size_spec() == old(self).page_size_spec(),
            r matches Some(base) ==> base % old(self).page_size_spec() == 0,
            r matches Some(base) ==> base + len <= usize::MAX,
            r matches Some(base) ==> addr_range(base as int, len as int).disjoint(
                old(self).live(),
            ),
            r matches Some(base) ==> final(self).live() == old(self).live().union(
                addr_range(base as int, len as int),
            ),
            r is None ==> final(self).live() == old(self).live(),
    ;

    /// Marks the page at `addr` inaccessible, turning it into a guard
    /// page; reports whether the protection took effect. The set of
    /// mapped addresses does not change.
    fn protect_stack(&mut self, addr: usize) -> (r: bool)
        requires
            old(self).inv(),
        ensures
            final(self).inv(),
            final(self).page_size_spec() == old(self).page_size_spec(),
            final(self).live() == old(self).live(),
    ;

    /// Unmaps the region of `len` bytes at `addr`; on success its
    /// addresses are no longer mapped, on failure nothing changed.
    fn unmap_stack(&mut self, addr: usize, len: usize) -> (r: bool)
        requires
            old(self).inv(),
        ensures
            final(self).inv(),
            final(self).page_size_spec() == old(self).page_size_spec(),
            r ==> final(self).live() == old(self).live().difference(
                addr_range(addr as int, len as int),
            ),
            !r ==> final(self).live() == old(self).live(),
    ;

    /// The OS error left by the most recent failing call, queried at
    /// the call site that observed the failure.
    fn last_error(&self) -> (r: i32)
        requires
            self.inv(),
    ;
}

/// A verified backend over a simulated address space: a bump cursor
/// hands out fresh page-aligned ranges, and released ranges are never
/// reused, so every mapping is disjoint from everything mapped before.
/// It backs the tests and any target without an OS mapping facility;
/// the addresses it returns are bookkeeping values, never dereferenced.
pub struct SimSource {
    next: usize,
    page: usize,
    fail_map: bool,
    fail_protect: bool,
    err: i32,
    mapped: Ghost<Set<int>>,
}

impl SimSource {
    /// A backend serving pages of `page` bytes whose calls all succeed.
    pub fn new(page: usize) -> (s: Self)
        requires
            power_of_two(page),
        ensures
            s.inv(),
            s.page_size_spec() == page,
            s.live() == Set::<int>::empty(),
    {
        proof {
            lemma_power_of_two_pos(page);
        }
        SimSource {
            next: 0,
            page,
            fail_map: false,
            fail_protect: false,
            err: 0,
            mapped: Ghost(Set::empty()),
        }
    }

    /// A backend whose mapping or protection step fails, reporting
    /// `err` as the OS error: exercises the acquisition error paths.
    pub fn failing(page: usize, fail_map: bool, fail_protect: bool, err: i32) -> (s: Self)
        requires
            power_of_two(page),
        ensures
            s.inv(),
            s.page_size_spec() == page,
            s.live() == Set::<int>::empty(),
    {
        proof {
            lemma_power_of_two_pos(page);
            lemma_small_mod(0, page as nat);
        }
        SimSource { next: 0, page, fail_map, fail_protect, err, mapped: Ghost(Set::empty()) }
    }
}

impl MemorySource for SimSource {
    closed spec fn inv(&self) -> bool {
        &&& power_of_two(self.page)
        &&& self.next % self.page == 0
        &&& forall|a: int| self.mapped@.contains(a) ==> 0 <= a < self.next
    }

    closed spec fn page_size_spec(&self) -> usize {
        self.page
    }

    closed spec fn live(&self) -> Set<int> {
        self.mapped@
    }

    fn page_size(&self) -> (r: usize) {
        self.page
    }

    fn map_stack(&mut self, len: usize) -> (r: Option<usize>) {
        if self.fail_map {
            return None;
        }
        if len > usize::MAX - self.next {
            return None;
        }
        let base = self.next;
        proof {
            lemma_power_of_two_pos(self.page);
            lemma_add_mod_noop(base as int, len as int, self.page as int);
        }
        self.next = self.next + len;
        self.mapped = Ghost(self.mapped@.union(addr_range(base as int, len as int)));
        proof {
            assert forall|a: int| self.mapped@.contains(a) implies 0 <= a < self.next by {}
            assert forall|a: int|
                addr_range(base as int, len as int).contains(a) implies !old(
                self,
            ).mapped@.contains(a) by {}
            assert(addr_range(base as int, len as int).disjoint(old(self).mapped@));
        }
        Some(base)
    }

    fn protect_stack(&mut self, addr: usize) -> (r: bool) {
        !self.fail_protect
    }

    fn unmap_stack(&mut self, addr: usize, len: usize) -> (r: bool) {
        self.mapped = Ghost(self.mapped@.difference(addr_range(addr as int, len as int)));
        true
    }

    fn last_error(&self) -> (r: i32) {
        self.err
    }
}

} // verus!
