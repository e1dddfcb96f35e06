//! A model of the host's pool-allocation primitive.
//!
//! The host offers two operations: allocate a block of at least the requested
//! size, aligned to at least 8 bytes, and free a previously returned block.
//! [`PoolSource`] captures exactly what those operations guarantee: it hands
//! out fresh 8-byte-aligned addresses from a bounded range, tracks the live
//! blocks, and records the tracker values the allocator writes into pool
//! memory. The aligned allocator is verified against this model; the raw host
//! bindings that realise it stay outside the library.

use crate::layout::{lemma_aligned_add, round_up_to, spec_round_up};
use crate::tracker::AllocationTracker;
use vstd::prelude::*;

verus! {

/// Failure of a pool operation: the pool cannot supply the block, or the
/// address handed to free was not a live block.
#[derive(Clone, Copy, PartialEq, Eq, Structural, Debug)]
pub enum PoolError {
    OutOfMemory,
    NotAllocated,
}

/// A live block the pool has handed out: its address and the size requested.
#[derive(Clone, Copy, PartialEq, Eq, Structural, Debug)]
pub struct PoolBlock {
    pub addr: usize,
    pub size: usize,
}

/// A tracker record written into pool memory at an address.
#[derive(Clone, Copy, PartialEq, Eq, Structural, Debug)]
pub struct TrackerCell {
    pub addr: usize,
    pub value: AllocationTracker,
}

/// How far the pool's bump pointer advances for a request of `size` bytes:
/// the size rounded up to the pool's 8-byte granule, at least one granule.
pub open spec fn spec_adv(size: int) -> int {
    if size <= 8 {
        8
    } else {
        spec_round_up(size, 8)
    }
}

/// The tracker record most recently written at `addr`, if any.
pub open spec fn cells_lookup(s: Seq<TrackerCell>, addr: usize) -> Option<AllocationTracker>
    decreases s.len(),
{
    if s.len() == 0 {
        None
    } else if s.last().addr == addr {
        Some(s.last().value)
    } else {
        cells_lookup(s.drop_last(), addr)
    }
}

/// Writing one record changes the lookup at its address and no other.
pub proof fn lemma_cells_lookup_push(s: Seq<TrackerCell>, c: TrackerCell, addr: usize)
    ensures
        cells_lookup(s.push(c), addr) == (if c.addr == addr {
            Some(c.value)
        } else {
            cells_lookup(s, addr)
        }),
{
    assert(s.push(c).last() == c);
    assert(s.push(c).drop_last() =~= s);
}

/// The state of the host pool: a bump pointer over a bounded address range,
/// the set of live blocks, and the tracker records written into its memory.
pub struct PoolSource {
    pub next_free: usize,
    pub limit: usize,
    pub live: Vec<PoolBlock>,
    pub cells: Vec<TrackerCell>,
}

impl PoolSource {
    /// The pool's basic soundness: the bump pointer is a nonzero multiple of
    /// the 8-byte granule within the range, and live blocks have distinct
    /// addresses handed out before the bump pointer.
    pub open spec fn wf(self) -> bool {
        &&& 8 <= self.next_free <= self.limit
        &&& self.next_free as int % 8 == 0
        &&& (forall|i: int, j: int|
            0 <= i < j < self.live@.len() ==> (#[trigger] self.live@[i]).addr != (
            #[trigger] self.live@[j]).addr)
        &&& (forall|i: int|
            0 <= i < self.live@.len() ==> (#[trigger] self.live@[i]).addr < self.next_free)
    }

    /// Whether some live block has this address.
    pub open spec fn lives(self, addr: usize) -> bool {
        exists|i: int| 0 <= i < self.live@.len() && (#[trigger] self.live@[i]).addr == addr
    }

    /// Whether the pool can satisfy a request of `size` bytes.
    pub open spec fn can_alloc(self, size: int) -> bool {
        &&& size <= usize::MAX - 8
        &&& self.next_free <= self.limit
        &&& spec_adv(size) <= self.limit - self.next_free
    }

    /// A fresh pool whose address range ends at `limit`.
    pub fn new(limit: usize) -> (r: PoolSource)
        requires
            limit >= 8,
        ensures
            r.wf(),
            r.next_free == 8,
            r.limit == limit,
            r.live@ == Seq::<PoolBlock>::empty(),
            r.cells@ == Seq::<TrackerCell>::empty(),
    {
        let r = PoolSource { next_free: 8, limit, live: Vec::new(), cells: Vec::new() };
        proof {
            assert(r.live@ =~= Seq::<PoolBlock>::empty());
            assert(r.cells@ =~= Seq::<TrackerCell>::empty());
        }
        r
    }

    /// Allocate `size` bytes: on success the returned address is the current
    /// bump pointer, 8-byte aligned, nonzero, and fresh, and the block is
    /// appended to the live list. On failure nothing changes.
    pub fn alloc_pool(&mut self, size: usize) -> (r: Result<usize, PoolError>)
        ensures
            old(self).wf() ==> final(self).wf(),
            old(self).can_alloc(size as int) ==> r == Ok::<usize, PoolError>(old(self).next_free)
                && pool_alloc_effect(*old(self), *final(self), size),
            !old(self).can_alloc(size as int) ==> r == Err::<usize, PoolError>(
                PoolError::OutOfMemory,
            ) && *final(self) == *old(self),
    {
        if size > usize::MAX - 8 {
            return Err(PoolError::OutOfMemory);
        }
        if self.next_free > self.limit {
            return Err(PoolError::OutOfMemory);
        }
        let adv = if size <= 8 {
            8
        } else {
            round_up_to(size, 8)
        };
        if adv > self.limit - self.next_free {
            return Err(PoolError::OutOfMemory);
        }
        let addr = self.next_free;
        proof {
            if old(self).wf() {
                lemma_aligned_add(addr as int, adv as int, 8);
            }
        }
        self.next_free = addr + adv;
        self.live.push(PoolBlock { addr, size });
        Ok(addr)
    }

    /// Free the live block at `addr`: it is removed from the live list and
    /// everything else is untouched. Freeing an address that is not live
    /// reports [`PoolError::NotAllocated`] and changes nothing.
    pub fn free_pool(&mut self, addr: usize) -> (r: Result<(), PoolError>)
        ensures
            old(self).wf() ==> final(self).wf(),
            pool_free_effect(*old(self), *final(self), addr),
            r == Ok::<(), PoolError>(()) <==> old(self).lives(addr),
    {
        let mut i: usize = 0;
        while i < self.live.len()
            invariant
                i <= self.live@.len(),
                *self == *old(self),
                forall|j: int| 0 <= j < i ==> (#[trigger] self.live@[j]).addr != addr,
            decreases self.live@.len() - i,
        {
            if self.live[i].addr == addr {
                self.live.remove(i);
                proof {
                    assert(old(self).live@[i as int].addr == addr);
                    if old(self).wf() {
                        assert forall|p: int, q: int|
                            0 <= p < q < self.live@.len() implies (#[trigger] self.live@[p]).addr
                            != (#[trigger] self.live@[q]).addr by {
                            assert(self.live@[p] == if p < i {
                                old(self).live@[p]
                            } else {
                                old(self).live@[p + 1]
                            });
                            assert(self.live@[q] == if q < i {
                                old(self).live@[q]
                            } else {
                                old(self).live@[q + 1]
                            });
                        }
                        assert forall|p: int| 0 <= p < self.live@.len() implies (
                        #[trigger] self.live@[p]).addr < self.next_free by {
                            assert(self.live@[p] == if p < i {
                                old(self).live@[p]
                            } else {
                                old(self).live@[p + 1]
                            });
                        }
                    }
                }
                return Ok(());
            }
            i = i + 1;
        }
        Err(PoolError::NotAllocated)
    }

    /// Record a tracker write into pool memory at `addr`; the most recent
    /// write at an address is the one a later read observes.
    pub fn write_tracker(&mut self, addr: usize, value: AllocationTracker)
        ensures
            old(self).wf() ==> final(self).wf(),
            final(self).cells@ == old(self).cells@.push(TrackerCell { addr, value }),
            final(self).next_free == old(self).next_free,
            final(self).limit == old(self).limit,
            final(self).live@ == old(self).live@,
    {
        self.cells.push(TrackerCell { addr, value });
    }

    /// Read back the tracker record most recently written at `addr`.
    pub fn read_tracker(&self, addr: usize) -> (r: Option<AllocationTracker>)
        ensures
            r == cells_lookup(self.cells@, addr),
    {
        let mut i: usize = self.cells.len();
        proof {
            assert(self.cells@.take(i as int) =~= self.cells@);
        }
        while i > 0
            invariant
                i <= self.cells@.len(),
                cells_lookup(self.cells@, addr) == cells_lookup(
                    self.cells@.take(i as int),
                    addr,
                ),
            decreases i,
        {
            let c = self.cells[i - 1];
            proof {
                assert(self.cells@.take(i as int).last() == self.cells@[i - 1]);
                assert(self.cells@.take(i as int).drop_last() =~= self.cells@.take(i - 1));
            }
            if c.addr == addr {
                return Some(c.value);
            }
            i = i - 1;
        }
        None
    }

    /// Whether the pool currently tracks a live block at `addr`.
    pub fn contains_block(&self, addr: usize) -> (r: bool)
        ensures
            r == self.lives(addr),
    {
        let mut i: usize = 0;
        while i < self.live.len()
            invariant
                i <= self.live@.len(),
                forall|j: int| 0 <= j < i ==> (#[trigger] self.live@[j]).addr != addr,
            decreases self.live@.len() - i,
        {
            if self.live[i].addr == addr {
                return true;
            }
            i = i + 1;
        }
        false
    }

    /// Decide [`Self::wf`] at run time: used where state has passed through
    /// a boundary the verifier cannot see across, to re-establish soundness
    /// before the pool is operated on.
    pub fn check_wf(&self) -> (r: bool)
        ensures
            r == self.wf(),
    {
        if !(8 <= self.next_free && self.next_free <= self.limit) {
            return false;
        }
        if self.next_free % 8 != 0 {
            return false;
        }
        let n = self.live.len();
        let mut i: usize = 0;
        while i < n
            invariant
                n == self.live@.len(),
                i <= n,
                forall|p: int, q: int|
                    0 <= p < q < n && p < i ==> (#[trigger] self.live@[p]).addr != (
                    #[trigger] self.live@[q]).addr,
                forall|p: int| 0 <= p < i ==> (#[trigger] self.live@[p]).addr < self.next_free,
            decreases n - i,
        {
            if self.live[i].addr >= self.next_free {
                return false;
            }
            let mut j: usize = i + 1;
            while j < n
                invariant
                    n == self.live@.len(),
                    i < n,
                    i + 1 <= j <= n,
                    forall|q: int|
                        i < q < j ==> (#[trigger] self.live@[q]).addr != self.live@[i as int].addr,
                decreases n - j,
            {
                if self.live[j].addr == self.live[i].addr {
                    return false;
                }
                j = j + 1;
            }
            i = i + 1;
        }
        true
    }

    /// How many blocks are currently live.
    pub fn live_count(&self) -> (r: usize)
        ensures
            r == self.live@.len(),
    {
        self.live.len()
    }
}

/// Effect of a successful pool allocation on the pool state.
pub open spec fn pool_alloc_effect(pre: PoolSource, post: PoolSource, size: usize) -> bool {
    &&& post.next_free == pre.next_free + spec_adv(size as int)
    &&& post.limit == pre.limit
    &&& post.live@ == pre.live@.push(PoolBlock { addr: pre.next_free, size })
    &&& post.cells@ == pre.cells@
}

/// Effect of freeing `addr`: the live block with that address goes away, and
/// nothing else changes; an address that is not live leaves the pool as it is.
pub open spec fn pool_free_effect(pre: PoolSource, post: PoolSource, addr: usize) -> bool {
    if pre.lives(addr) {
        exists|i: int|
            0 <= i < pre.live@.len() && (#[trigger] pre.live@[i]).addr == addr && post.live@
                == pre.live@.remove(i) && post.next_free == pre.next_free && post.limit == pre.limit
                && post.cells@ == pre.cells@
    } else {
        post == pre
    }
}

} // verus!
