//! Two allocators to exercise the storages with: one that never allocates, and one that
//! counts.

use vstd::arithmetic::div_mod::{lemma_fundamental_div_mod, lemma_mod_multiples_basic};
use vstd::prelude::*;

use crate::traits::{Allocator, Calls};
use crate::utils::{AllocError, Layout};

verus! {

/// A NonAllocator never allocates: every request is refused, and counted.
pub struct NonAllocator {
    attempts: Ghost<nat>,
}

impl NonAllocator {
    /// Creates an instance, which was never asked for anything.
    pub fn new() -> (r: Self)
        ensures
            r.wf(),
            r.allocations() == 0,
            r.deallocations() == 0,
            r.blocks() == Map::<usize, Layout>::empty(),
    {
        NonAllocator { attempts: Ghost(0) }
    }
}

impl Default for NonAllocator {
    fn default() -> (r: Self)
        ensures
            r.wf(),
            r.allocations() == 0,
            r.deallocations() == 0,
            r.blocks() == Map::<usize, Layout>::empty(),
    {
        NonAllocator::new()
    }
}

impl Allocator for NonAllocator {
    open spec fn wf(&self) -> bool {
        true
    }

    open spec fn blocks(&self) -> Map<usize, Layout> {
        Map::empty()
    }

    closed spec fn allocations(&self) -> nat {
        self.attempts@
    }

    open spec fn deallocations(&self) -> nat {
        0
    }

    open spec fn can_allocate(&self, layout: Layout) -> bool {
        false
    }

    open spec fn can_resize(&self, address: usize, old_layout: Layout, new_layout: Layout) -> bool {
        false
    }

    open spec fn resize_calls(
        &self,
        address: usize,
        old_layout: Layout,
        new_layout: Layout,
    ) -> Calls {
        Calls { allocations: 0, deallocations: 0 }
    }

    fn allocate(&mut self, layout: Layout) -> (r: Result<usize, AllocError>) {
        proof {
            self.attempts@ = self.attempts@ + 1;
        }
        Err(AllocError)
    }

    /// Never to be called: there is no block to return, as none was ever handed out.
    fn deallocate(&mut self, address: usize, layout: Layout) {
    }

    /// Never to be called: there is no block to extend, as none was ever handed out.
    fn grow(&mut self, address: usize, old_layout: Layout, new_layout: Layout) -> (r: Result<
        usize,
        AllocError,
    >) {
        Err(AllocError)
    }

    /// Never to be called: there is no block to reduce, as none was ever handed out.
    fn shrink(&mut self, address: usize, old_layout: Layout, new_layout: Layout) -> (r: Result<
        usize,
        AllocError,
    >) {
        Err(AllocError)
    }
}

/// A SpyAllocator hands out blocks at ever higher addresses, and counts how often it is
/// asked to allocate and to deallocate.
pub struct SpyAllocator {
    next: usize,
    allocated: usize,
    deallocated: usize,
    live: Ghost<Map<usize, Layout>>,
    attempts: Ghost<nat>,
    returns: Ghost<nat>,
}

/// The number that a counter shows after `n` events: it stops at the largest `usize`.
pub open spec fn saturated(n: nat) -> usize {
    if n <= usize::MAX {
        n as usize
    } else {
        usize::MAX
    }
}

/// The number of addresses that a block of `layout` takes up: at least one, so that no
/// two blocks share an address.
pub open spec fn spec_extent(layout: Layout) -> usize {
    if layout.size == 0 {
        1
    } else {
        layout.size
    }
}

/// The first multiple of `align` that is not below `address`; `address` itself where no
/// alignment is asked for.
pub open spec fn spec_aligned(address: usize, align: usize) -> int {
    if align == 0 || address as int % align as int == 0 {
        address as int
    } else {
        address + align - address as int % align as int
    }
}

impl SpyAllocator {
    /// The first address that no block has been given yet.
    pub closed spec fn frontier(&self) -> usize {
        self.next
    }

    /// Creates an instance, which was never asked for anything. Its first block will
    /// live at the first multiple of its alignment from 1 on.
    pub fn new() -> (r: Self)
        ensures
            r.wf(),
            r.allocations() == 0,
            r.deallocations() == 0,
            r.blocks() == Map::<usize, Layout>::empty(),
            r.frontier() == 1,
    {
        SpyAllocator {
            next: 1,
            allocated: 0,
            deallocated: 0,
            live: Ghost(Map::empty()),
            attempts: Ghost(0),
            returns: Ghost(0),
        }
    }

    /// The number of calls of `allocate`, as far as a `usize` can count.
    pub fn allocated(&self) -> (r: usize)
        requires
            self.wf(),
        ensures
            r == saturated(self.allocations()),
    {
        self.allocated
    }

    /// The number of calls of `deallocate`, as far as a `usize` can count.
    pub fn deallocated(&self) -> (r: usize)
        requires
            self.wf(),
        ensures
            r == saturated(self.deallocations()),
    {
        self.deallocated
    }

    fn count_allocation(&mut self)
        requires
            old(self).wf(),
        ensures
            final(self).wf(),
            final(self).allocations() == old(self).allocations() + 1,
            final(self).deallocations() == old(self).deallocations(),
            final(self).blocks() == old(self).blocks(),
            final(self).frontier() == old(self).frontier(),
    {
        if self.allocated < usize::MAX {
            self.allocated = self.allocated + 1;
        }
        proof {
            self.attempts@ = self.attempts@ + 1;
        }
    }

    fn count_deallocation(&mut self)
        requires
            old(self).wf(),
        ensures
            final(self).wf(),
            final(self).allocations() == old(self).allocations(),
            final(self).deallocations() == old(self).deallocations() + 1,
            final(self).blocks() == old(self).blocks(),
            final(self).frontier() == old(self).frontier(),
    {
        if self.deallocated < usize::MAX {
            self.deallocated = self.deallocated + 1;
        }
        proof {
            self.returns@ = self.returns@ + 1;
        }
    }
}

impl Default for SpyAllocator {
    fn default() -> (r: Self)
        ensures
            r.wf(),
            r.allocations() == 0,
            r.deallocations() == 0,
            r.blocks() == Map::<usize, Layout>::empty(),
            r.frontier() == 1,
    {
        SpyAllocator::new()
    }
}

impl Allocator for SpyAllocator {
    closed spec fn wf(&self) -> bool {
        &&& self.allocated == saturated(self.attempts@)
        &&& self.deallocated == saturated(self.returns@)
        &&& forall|address: usize| #[trigger]
            self.live@.contains_key(address) ==> address < self.next
    }

    closed spec fn blocks(&self) -> Map<usize, Layout> {
        self.live@
    }

    closed spec fn allocations(&self) -> nat {
        self.attempts@
    }

    closed spec fn deallocations(&self) -> nat {
        self.returns@
    }

    open spec fn can_allocate(&self, layout: Layout) -> bool {
        spec_aligned(self.frontier(), layout.align) + spec_extent(layout) <= usize::MAX
    }

    open spec fn can_resize(&self, address: usize, old_layout: Layout, new_layout: Layout) -> bool {
        self.can_allocate(new_layout)
    }

    open spec fn resize_calls(
        &self,
        address: usize,
        old_layout: Layout,
        new_layout: Layout,
    ) -> Calls {
        Calls {
            allocations: 1,
            deallocations: if self.can_allocate(new_layout) {
                1
            } else {
                0
            },
        }
    }

    fn allocate(&mut self, layout: Layout) -> (r: Result<usize, AllocError>)
        ensures
            r matches Ok(address) ==> address == spec_aligned(old(self).frontier(), layout.align)
                && final(self).frontier() == address + spec_extent(layout),
            r is Err ==> final(self).frontier() == old(self).frontier(),
    {
        self.count_allocation();
        let extent = if layout.size == 0 {
            1
        } else {
            layout.size
        };
        let padding = if layout.align == 0 || self.next % layout.align == 0 {
            0
        } else {
            layout.align - self.next % layout.align
        };
        if padding > usize::MAX - self.next {
            return Err(AllocError);
        }
        let address = self.next + padding;
        proof {
            if layout.align > 0 {
                let a = layout.align as int;
                let n = self.next as int;
                lemma_fundamental_div_mod(n, a);
                if n % a != 0 {
                    assert(address == a * (n / a) + a);
                    assert(a * (n / a) + a == (n / a + 1) * a) by (nonlinear_arith);
                    lemma_mod_multiples_basic(n / a + 1, a);
                }
            }
        }
        if extent > usize::MAX - address {
            return Err(AllocError);
        }
        self.next = address + extent;
        proof {
            self.live@ = self.live@.insert(address, layout);
        }
        Ok(address)
    }

    fn deallocate(&mut self, address: usize, layout: Layout)
        ensures
            final(self).frontier() == old(self).frontier(),
    {
        self.count_deallocation();
        proof {
            self.live@ = self.live@.remove(address);
        }
    }

    /// Grows by moving: a new block is allocated and the old one returned, each of which
    /// is counted.
    fn grow(&mut self, address: usize, old_layout: Layout, new_layout: Layout) -> (r: Result<
        usize,
        AllocError,
    >)
    {
        let moved = self.allocate(new_layout)?;
        self.deallocate(address, old_layout);
        Ok(moved)
    }

    /// Shrinks by moving: a new block is allocated and the old one returned, each of
    /// which is counted.
    fn shrink(&mut self, address: usize, old_layout: Layout, new_layout: Layout) -> (r: Result<
        usize,
        AllocError,
    >)
    {
        let moved = self.allocate(new_layout)?;
        self.deallocate(address, old_layout);
        Ok(moved)
    }
}

} // verus!
