//! The in-band recovery record.
//!
//! When an allocation needs more alignment than the pool source guarantees,
//! the allocator over-allocates and writes one of these records just after the
//! aligned usable region. At deallocation time the record is read back at an
//! offset recomputed from the caller's size and alignment, its signature is
//! checked, and the original (pre-alignment) pool pointer inside it is freed.

use vstd::prelude::*;

verus! {

/// Signature every valid tracker record carries.
pub const ALLOC_TRACKER_SIG: u32 = 0x706F6F6C;

/// Recovery record trailing a high-alignment allocation: the magic signature
/// and the address the pool source originally returned.
#[derive(Clone, Copy, PartialEq, Eq, Structural, Debug)]
pub struct AllocationTracker {
    pub signature: u32,
    pub original_pointer: usize,
}

impl AllocationTracker {
    /// The record the allocator writes for a block whose pool pointer is
    /// `original_pointer`.
    pub fn new(original_pointer: usize) -> (r: Self)
        ensures
            r == (AllocationTracker { signature: ALLOC_TRACKER_SIG, original_pointer }),
    {
        AllocationTracker { signature: ALLOC_TRACKER_SIG, original_pointer }
    }

    /// Whether the record carries the expected signature; a mismatch means the
    /// deallocation request does not match what was used at allocation time.
    pub fn signature_valid(&self) -> (r: bool)
        ensures
            r == (self.signature == ALLOC_TRACKER_SIG),
    {
        self.signature == ALLOC_TRACKER_SIG
    }
}

} // verus!
