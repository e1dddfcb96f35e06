//! The aligned allocator over the pool source.
//!
//! Requests whose alignment is within the pool's own 8-byte guarantee are
//! delegated to the pool unchanged. Larger power-of-two alignments take the
//! slow path: the request is extended to fit a trailing
//! [`AllocationTracker`], the pool is asked for the extended size plus one
//! extra alignment's worth of slack, the returned base address is rounded up
//! to the requested alignment, and a tracker holding the base address is
//! written just after the usable region. Deallocation recomputes the same
//! layout from the caller's size and alignment, reads the tracker back,
//! checks its signature, and frees the recovered base address.

use crate::layout::{
    extend_for_tracker, is_power_of_two, layout_fits, lemma_round_up, round_up_to,
    spec_expanded_size, spec_round_up, spec_tracking_offset, POOL_ALIGN,
};
use vstd::arithmetic::div_mod::{lemma_fundamental_div_mod, lemma_mod_multiples_basic};
use crate::pool::{
    cells_lookup, lemma_cells_lookup_push, pool_alloc_effect, pool_free_effect, spec_adv,
    PoolBlock, PoolSource, TrackerCell,
};
use crate::tracker::{AllocationTracker, ALLOC_TRACKER_SIG};
use vstd::prelude::*;

verus! {

/// Why an allocator operation failed: no pool source bound yet, the pool is
/// out of memory, the request cannot be extended without overflow, or the
/// recovery record read at free time does not carry the expected signature.
#[derive(Clone, Copy, PartialEq, Eq, Structural, Debug)]
pub enum AllocFailure {
    Uninitialized,
    PoolExhausted,
    InvalidLayout,
    CorruptTracker,
}

/// The aligned allocator: unusable until a pool source is bound, then all
/// operations act on that pool.
pub struct BootServicesAllocator {
    pub pool: Option<PoolSource>,
}

/// Fast path: the pool's own 8-byte alignment already satisfies the request,
/// so the result is exactly what the pool source returns for the requested
/// size, and failure propagates unchanged.
pub open spec fn fast_alloc_post(
    p: PoolSource,
    q: PoolSource,
    size: usize,
    r: Result<usize, AllocFailure>,
) -> bool {
    if p.can_alloc(size as int) {
        r == Ok::<usize, AllocFailure>(p.next_free) && pool_alloc_effect(p, q, size)
    } else {
        r == Err::<usize, AllocFailure>(AllocFailure::PoolExhausted) && q == p
    }
}

/// Slow path: the request is extended for a tracker, the pool allocates the
/// extended size plus one alignment of slack, the base is rounded up to the
/// requested alignment, and a tracker recording the base is written at the
/// tracking offset past the aligned pointer.
pub open spec fn slow_alloc_post(
    p: PoolSource,
    q: PoolSource,
    size: usize,
    align: usize,
    r: Result<usize, AllocFailure>,
) -> bool {
    if !layout_fits(size as int, align as int) {
        r == Err::<usize, AllocFailure>(AllocFailure::InvalidLayout) && q == p
    } else {
        let total = spec_expanded_size(size as int) + align as int;
        if !p.can_alloc(total) {
            r == Err::<usize, AllocFailure>(AllocFailure::PoolExhausted) && q == p
        } else {
            let base = p.next_free;
            let fin = spec_round_up(base as int, align as int);
            let cell = fin + spec_tracking_offset(size as int);
            &&& r == Ok::<usize, AllocFailure>(fin as usize)
            &&& q.next_free == base + spec_adv(total)
            &&& q.limit == p.limit
            &&& q.live@ == p.live@.push(PoolBlock { addr: base, size: total as usize })
            &&& q.cells@ == p.cells@.push(
                TrackerCell {
                    addr: cell as usize,
                    value: AllocationTracker {
                        signature: ALLOC_TRACKER_SIG,
                        original_pointer: base,
                    },
                },
            )
        }
    }
}

/// Everything [`BootServicesAllocator::allocate`] does, for every input.
pub open spec fn allocate_post(
    pre: BootServicesAllocator,
    post: BootServicesAllocator,
    size: usize,
    align: usize,
    r: Result<usize, AllocFailure>,
) -> bool {
    match pre.pool {
        Option::None => r == Err::<usize, AllocFailure>(AllocFailure::Uninitialized) && post
            == pre,
        Option::Some(p) => match post.pool {
            Option::Some(q) => if align <= POOL_ALIGN {
                fast_alloc_post(p, q, size, r)
            } else {
                slow_alloc_post(p, q, size, align, r)
            },
            Option::None => false,
        },
    }
}

/// Fast-path deallocation: the caller's pointer is handed to the pool's free
/// unchanged.
pub open spec fn fast_dealloc_post(
    p: PoolSource,
    q: PoolSource,
    ptr: usize,
    r: Result<(), AllocFailure>,
) -> bool {
    r == Ok::<(), AllocFailure>(()) && pool_free_effect(p, q, ptr)
}

/// Slow-path deallocation: the tracking offset is recomputed from the
/// caller's pair, the tracker is read back at that offset, its signature is
/// checked, and the original base address it holds is freed. Any failure to
/// recover a valid tracker frees nothing.
pub open spec fn slow_dealloc_post(
    p: PoolSource,
    q: PoolSource,
    ptr: usize,
    size: usize,
    align: usize,
    r: Result<(), AllocFailure>,
) -> bool {
    if !layout_fits(size as int, align as int) {
        r == Err::<(), AllocFailure>(AllocFailure::InvalidLayout) && q == p
    } else {
        let cell = ptr + spec_tracking_offset(size as int);
        if cell > usize::MAX {
            r == Err::<(), AllocFailure>(AllocFailure::CorruptTracker) && q == p
        } else {
            match cells_lookup(p.cells@, cell as usize) {
                Option::None => r == Err::<(), AllocFailure>(AllocFailure::CorruptTracker) && q
                    == p,
                Option::Some(t) => if t.signature != ALLOC_TRACKER_SIG {
                    r == Err::<(), AllocFailure>(AllocFailure::CorruptTracker) && q == p
                } else {
                    r == Ok::<(), AllocFailure>(()) && pool_free_effect(p, q, t.original_pointer)
                },
            }
        }
    }
}

/// Everything [`BootServicesAllocator::deallocate`] does, for every input.
pub open spec fn deallocate_post(
    pre: BootServicesAllocator,
    post: BootServicesAllocator,
    ptr: usize,
    size: usize,
    align: usize,
    r: Result<(), AllocFailure>,
) -> bool {
    match pre.pool {
        Option::None => r == Err::<(), AllocFailure>(AllocFailure::Uninitialized) && post == pre,
        Option::Some(p) => match post.pool {
            Option::Some(q) => if align <= POOL_ALIGN {
                fast_dealloc_post(p, q, ptr, r)
            } else {
                slow_dealloc_post(p, q, ptr, size, align, r)
            },
            Option::None => false,
        },
    }
}

impl BootServicesAllocator {
    /// The allocator's pool source, once bound, is sound.
    pub open spec fn wf(self) -> bool {
        match self.pool {
            Option::Some(p) => p.wf(),
            Option::None => true,
        }
    }

    /// Whether a pool source has been bound.
    pub open spec fn bound(self) -> bool {
        self.pool is Some
    }

    /// A fresh allocator with no pool source bound: every operation fails
    /// with [`AllocFailure::Uninitialized`] until [`Self::init`] is called.
    pub fn new() -> (r: Self)
        ensures
            r.pool is None,
            r.wf(),
    {
        BootServicesAllocator { pool: None }
    }

    /// Bind the pool source; the one-time configuration step that makes the
    /// allocator usable.
    pub fn init(&mut self, pool: PoolSource)
        ensures
            final(self).pool == Some(pool),
    {
        self.pool = Some(pool);
    }

    /// Satisfy an allocation request of `size` bytes at a power-of-two
    /// `align`. On success the returned address is nonzero and a multiple of
    /// `align`; before a pool source is bound, every request fails with
    /// [`AllocFailure::Uninitialized`] and nothing is touched.
    pub fn allocate(&mut self, size: usize, align: usize) -> (r: Result<usize, AllocFailure>)
        requires
            old(self).wf(),
            is_power_of_two(align as int),
        ensures
            final(self).wf(),
            allocate_post(*old(self), *final(self), size, align, r),
            r is Ok ==> r.unwrap() as int % align as int == 0 && r.unwrap() >= 8,
            !old(self).bound() ==> r == Err::<usize, AllocFailure>(AllocFailure::Uninitialized)
                && *final(self) == *old(self),
    {
        match &mut self.pool {
            None => Err(AllocFailure::Uninitialized),
            Some(p) => {
                if align <= POOL_ALIGN {
                    match p.alloc_pool(size) {
                        Ok(addr) => {
                            proof {
                                lemma_pow2_le8_divides(addr as int, align as int);
                            }
                            Ok(addr)
                        },
                        Err(_) => Err(AllocFailure::PoolExhausted),
                    }
                } else {
                    let expanded = match extend_for_tracker(size, align) {
                        Some(l) => l,
                        None => {
                            return Err(AllocFailure::InvalidLayout);
                        },
                    };
                    let total = expanded.size + expanded.align;
                    let base = match p.alloc_pool(total) {
                        Ok(b) => b,
                        Err(_) => {
                            return Err(AllocFailure::PoolExhausted);
                        },
                    };
                    proof {
                        lemma_round_up(total as int, 8);
                        assert(base + total <= p.limit);
                    }
                    let fin = round_up_to(base, align);
                    let cell = fin + expanded.tracking_offset;
                    p.write_tracker(cell, AllocationTracker::new(base));
                    Ok(fin)
                }
            },
        }
    }

    /// Release an allocation made with the same `size` and `align` pair. The
    /// fast path forwards the caller's pointer to the pool's free unchanged;
    /// the slow path recovers the original base address from the tracker
    /// record and frees that, refusing with
    /// [`AllocFailure::CorruptTracker`] (and freeing nothing) when no record
    /// with the expected signature is found. Before a pool source is bound
    /// the call is a no-op reporting [`AllocFailure::Uninitialized`].
    pub fn deallocate(&mut self, ptr: usize, size: usize, align: usize) -> (r: Result<
        (),
        AllocFailure,
    >)
        requires
            old(self).wf(),
            is_power_of_two(align as int),
        ensures
            final(self).wf(),
            deallocate_post(*old(self), *final(self), ptr, size, align, r),
            !old(self).bound() ==> r == Err::<(), AllocFailure>(AllocFailure::Uninitialized)
                && *final(self) == *old(self),
    {
        match &mut self.pool {
            None => Err(AllocFailure::Uninitialized),
            Some(p) => {
                if align <= POOL_ALIGN {
                    let _ = p.free_pool(ptr);
                    Ok(())
                } else {
                    let expanded = match extend_for_tracker(size, align) {
                        Some(l) => l,
                        None => {
                            return Err(AllocFailure::InvalidLayout);
                        },
                    };
                    if expanded.tracking_offset > usize::MAX - ptr {
                        return Err(AllocFailure::CorruptTracker);
                    }
                    let cell = ptr + expanded.tracking_offset;
                    match p.read_tracker(cell) {
                        None => Err(AllocFailure::CorruptTracker),
                        Some(t) => {
                            if t.signature_valid() {
                                let _ = p.free_pool(t.original_pointer);
                                Ok(())
                            } else {
                                Err(AllocFailure::CorruptTracker)
                            }
                        },
                    }
                }
            },
        }
    }

    /// Decide [`Self::wf`] at run time: used where the allocator's state has
    /// passed through a boundary the verifier cannot see across, such as a
    /// lock, to re-establish its soundness before it is operated on.
    pub fn check_wf(&self) -> (r: bool)
        ensures
            r == self.wf(),
    {
        match &self.pool {
            None => true,
            Some(p) => p.check_wf(),
        }
    }

    /// Allocation with the null-pointer convention of a language runtime's
    /// allocator hook: the address on success, 0 on any failure.
    pub fn boot_services_alloc(&mut self, size: usize, align: usize) -> (r: usize)
        requires
            old(self).wf(),
            is_power_of_two(align as int),
        ensures
            final(self).wf(),
            exists|res: Result<usize, AllocFailure>|
                allocate_post(*old(self), *final(self), size, align, res) && r == (if res is Ok {
                    res.unwrap()
                } else {
                    0
                }),
            r != 0 ==> r as int % align as int == 0 && r >= 8,
            !old(self).bound() ==> r == 0 && *final(self) == *old(self),
    {
        let res = self.allocate(size, align);
        match res {
            Ok(addr) => addr,
            Err(_) => 0,
        }
    }

    /// Deallocation with the hook convention: failures are swallowed, but the
    /// pool is never touched beyond what [`Self::deallocate`] describes.
    pub fn boot_services_dealloc(&mut self, ptr: usize, size: usize, align: usize)
        requires
            old(self).wf(),
            is_power_of_two(align as int),
        ensures
            final(self).wf(),
            exists|res: Result<(), AllocFailure>|
                deallocate_post(*old(self), *final(self), ptr, size, align, res),
            !old(self).bound() ==> *final(self) == *old(self),
    {
        let _ = self.deallocate(ptr, size, align);
    }
}

/// Law: for alignments within the pool's own 8-byte guarantee, allocation
/// returns exactly the pointer the pool source itself returns for that size
/// (and fails exactly when the pool fails), with no extra bookkeeping.
pub proof fn lemma_fast_path_delegates(
    pre: BootServicesAllocator,
    post: BootServicesAllocator,
    size: usize,
    align: usize,
    r: Result<usize, AllocFailure>,
)
    requires
        pre.bound(),
        align <= POOL_ALIGN,
        allocate_post(pre, post, size, align, r),
    ensures
        pre.pool.unwrap().can_alloc(size as int) ==> r == Ok::<usize, AllocFailure>(
            pre.pool.unwrap().next_free,
        ) && pool_alloc_effect(pre.pool.unwrap(), post.pool.unwrap(), size),
        !pre.pool.unwrap().can_alloc(size as int) ==> r == Err::<usize, AllocFailure>(
            AllocFailure::PoolExhausted,
        ) && post == pre,
{
}

/// Law: for alignments within the pool's own 8-byte guarantee, deallocation
/// hands exactly the caller's pointer to the pool source's free.
pub proof fn lemma_fast_path_free_forwards(
    pre: BootServicesAllocator,
    post: BootServicesAllocator,
    ptr: usize,
    size: usize,
    align: usize,
    r: Result<(), AllocFailure>,
)
    requires
        pre.bound(),
        align <= POOL_ALIGN,
        deallocate_post(pre, post, ptr, size, align, r),
    ensures
        r == Ok::<(), AllocFailure>(()),
        pool_free_effect(pre.pool.unwrap(), post.pool.unwrap(), ptr),
{
}

/// Law: deallocating a pointer just returned by `allocate`, with the same
/// size and alignment pair, succeeds and restores the pool source's live
/// blocks exactly as they were before the allocation; no block is leaked.
pub proof fn lemma_round_trip(
    a0: BootServicesAllocator,
    a1: BootServicesAllocator,
    a2: BootServicesAllocator,
    size: usize,
    align: usize,
    ptr: usize,
    r: Result<(), AllocFailure>,
)
    requires
        a0.wf(),
        a0.bound(),
        is_power_of_two(align as int),
        allocate_post(a0, a1, size, align, Ok(ptr)),
        a1.wf(),
        deallocate_post(a1, a2, ptr, size, align, r),
    ensures
        r == Ok::<(), AllocFailure>(()),
        a2.pool.unwrap().live@ == a0.pool.unwrap().live@,
{
    let p0 = a0.pool.unwrap();
    let p1 = a1.pool.unwrap();
    let p2 = a2.pool.unwrap();
    let n = p0.live@.len() as int;
    if align <= POOL_ALIGN {
        assert(p1.live@[n].addr == ptr);
        assert(p1.lives(ptr));
        let i = choose|i: int|
            0 <= i < p1.live@.len() && (#[trigger] p1.live@[i]).addr == ptr && p2.live@
                == p1.live@.remove(i);
        assert forall|j: int| 0 <= j < n implies (#[trigger] p1.live@[j]).addr != ptr by {
            assert(p1.live@[j] == p0.live@[j]);
        }
        assert(i == n);
        assert(p2.live@ =~= p0.live@);
    } else {
        let total = spec_expanded_size(size as int) + align as int;
        let base = p0.next_free;
        let fin = spec_round_up(base as int, align as int);
        let off = spec_tracking_offset(size as int);
        let cell = fin + off;
        lemma_round_up(base as int, align as int);
        lemma_round_up(total as int, 8);
        lemma_round_up(size as int, 8);
        assert(base + spec_adv(total) <= p0.limit);
        assert(cell <= usize::MAX);
        assert(ptr == fin);
        lemma_cells_lookup_push(
            p0.cells@,
            TrackerCell {
                addr: cell as usize,
                value: AllocationTracker { signature: ALLOC_TRACKER_SIG, original_pointer: base },
            },
            cell as usize,
        );
        assert(cells_lookup(p1.cells@, cell as usize) == Some(
            AllocationTracker { signature: ALLOC_TRACKER_SIG, original_pointer: base },
        ));
        assert(pool_free_effect(p1, p2, base));
        assert(p1.live@[n].addr == base);
        assert(p1.lives(base));
        let i = choose|i: int|
            0 <= i < p1.live@.len() && (#[trigger] p1.live@[i]).addr == base && p2.live@
                == p1.live@.remove(i);
        assert forall|j: int| 0 <= j < n implies (#[trigger] p1.live@[j]).addr != base by {
            assert(p1.live@[j] == p0.live@[j]);
        }
        assert(i == n);
        assert(p2.live@ =~= p0.live@);
    }
}

/// A power of two no greater than the pool granule is one of 1, 2, 4, 8.
proof fn lemma_pow2_le8(a: int)
    requires
        is_power_of_two(a),
        a <= 8,
    ensures
        a == 1 || a == 2 || a == 4 || a == 8,
{
    if a == 1 || a == 2 || a == 4 || a == 8 {
    } else {
        assert(a % 2 == 0 && is_power_of_two(a / 2));
        assert(a == 6);
        assert(is_power_of_two(3));
        assert(3int % 2 != 0);
    }
}

/// An 8-byte-aligned address satisfies every power-of-two alignment up to 8.
proof fn lemma_pow2_le8_divides(x: int, a: int)
    requires
        x >= 0,
        x % 8 == 0,
        is_power_of_two(a),
        a <= 8,
    ensures
        x % a == 0,
{
    lemma_pow2_le8(a);
    lemma_fundamental_div_mod(x, 8);
    let q = x / 8;
    if a == 8 {
    } else {
        assert(x == 8 * q);
        assert(8 * q == ((8int / a) * q) * a) by (nonlinear_arith)
            requires
                a == 1 || a == 2 || a == 4,
        ;
        lemma_mod_multiples_basic((8int / a) * q, a);
    }
}

} // verus!
