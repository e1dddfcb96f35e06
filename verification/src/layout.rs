//! Layout arithmetic for aligned allocation.
//!
//! The allocator expands a requested `(size, alignment)` pair so that the
//! block can also hold a trailing [`crate::tracker::AllocationTracker`], and
//! rounds addresses up to a requested alignment. Allocation and deallocation
//! both recompute this layout from the caller's pair alone, so the computation
//! is a pure function of its arguments.

use vstd::arithmetic::div_mod::{lemma_fundamental_div_mod, lemma_mod_multiples_basic};
use vstd::prelude::*;

verus! {

/// Minimum alignment the pool source guarantees for every block it hands out.
pub const POOL_ALIGN: usize = 8;

/// Bytes a tracker record occupies: a 4-byte signature padded up to the
/// 8-byte alignment of the pointer field, then the 8-byte pointer itself.
pub const TRACKER_SIZE: usize = 16;

/// Alignment of a tracker record (that of its pointer field).
pub const TRACKER_ALIGN: usize = 8;

/// Largest byte count a layout may reach once padded for alignment; offsets
/// within an allocation stay representable below this bound.
pub const MAX_LAYOUT_SIZE: usize = usize::MAX / 2;

pub open spec fn is_power_of_two(a: int) -> bool
    decreases a,
{
    if a <= 0 {
        false
    } else if a == 1 {
        true
    } else {
        a % 2 == 0 && is_power_of_two(a / 2)
    }
}

/// `x` rounded up to the next multiple of `a`; requires `a > 0`.
pub open spec fn spec_round_up(x: int, a: int) -> int {
    if x % a == 0 {
        x
    } else {
        x + a - x % a
    }
}

pub proof fn lemma_round_up(x: int, a: int)
    requires
        x >= 0,
        a > 0,
    ensures
        x <= spec_round_up(x, a) < x + a,
        spec_round_up(x, a) % a == 0,
{
    if x % a == 0 {
    } else {
        lemma_fundamental_div_mod(x, a);
        let q = x / a;
        assert(x == a * q + x % a);
        assert(spec_round_up(x, a) == a * q + a);
        assert(a * q + a == (q + 1) * a) by (nonlinear_arith);
        lemma_mod_multiples_basic(q + 1, a);
    }
}

/// Two multiples of `a` sum to a multiple of `a`.
pub proof fn lemma_aligned_add(x: int, y: int, a: int)
    requires
        x >= 0,
        y >= 0,
        a > 0,
        x % a == 0,
        y % a == 0,
    ensures
        (x + y) % a == 0,
{
    lemma_fundamental_div_mod(x, a);
    lemma_fundamental_div_mod(y, a);
    let qx = x / a;
    let qy = y / a;
    assert(x + y == a * qx + a * qy);
    assert(a * qx + a * qy == (qx + qy) * a) by (nonlinear_arith);
    lemma_mod_multiples_basic(qx + qy, a);
}

/// Byte distance from the start of the usable region to the tracker record:
/// the requested size rounded up to the tracker's alignment.
pub open spec fn spec_tracking_offset(size: int) -> int {
    spec_round_up(size, TRACKER_ALIGN as int)
}

/// Size of the request once extended to also hold one tracker record.
pub open spec fn spec_expanded_size(size: int) -> int {
    spec_tracking_offset(size) + TRACKER_SIZE
}

/// Alignment of the extended request: the larger of the requested alignment
/// and the tracker's own.
pub open spec fn spec_expanded_align(align: int) -> int {
    if align >= TRACKER_ALIGN as int {
        align
    } else {
        TRACKER_ALIGN as int
    }
}

/// Whether the extended layout is still representable: its size, padded for
/// its alignment, must stay within [`MAX_LAYOUT_SIZE`].
pub open spec fn layout_fits(size: int, align: int) -> bool {
    spec_expanded_size(size) + spec_expanded_align(align) - 1 <= MAX_LAYOUT_SIZE as int
}

/// A request extended to fit a trailing tracker record.
#[derive(Clone, Copy, PartialEq, Eq, Structural, Debug)]
pub struct ExpandedLayout {
    pub size: usize,
    pub align: usize,
    pub tracking_offset: usize,
}

/// What [`extend_for_tracker`] returns for a given request: the extended
/// layout exactly when the extension is representable.
pub open spec fn extend_post(size: int, align: int, r: Option<ExpandedLayout>) -> bool {
    match r {
        Some(l) => layout_fits(size, align) && l.size == spec_expanded_size(size)
            && l.align == spec_expanded_align(align) && l.tracking_offset == spec_tracking_offset(
            size,
        ),
        None => !layout_fits(size, align),
    }
}

/// Round `x` up to the next multiple of `a`.
pub fn round_up_to(x: usize, a: usize) -> (r: usize)
    requires
        a >= 1,
        x + a <= usize::MAX,
    ensures
        r == spec_round_up(x as int, a as int),
        x <= r < x + a,
        r as int % a as int == 0,
{
    proof {
        lemma_round_up(x as int, a as int);
    }
    let rem = x % a;
    if rem == 0 {
        x
    } else {
        x + (a - rem)
    }
}

/// Extend a request so the block can also carry one tracker record, and give
/// the byte offset at which the record begins; `None` when the extension is
/// not representable.
pub fn extend_for_tracker(size: usize, align: usize) -> (r: Option<ExpandedLayout>)
    requires
        align >= 1,
    ensures
        extend_post(size as int, align as int, r),
{
    if size > MAX_LAYOUT_SIZE {
        proof {
            lemma_round_up(size as int, TRACKER_ALIGN as int);
        }
        return None;
    }
    let tracking_offset = round_up_to(size, TRACKER_ALIGN);
    let esize = tracking_offset + TRACKER_SIZE;
    let ealign = if align >= TRACKER_ALIGN {
        align
    } else {
        TRACKER_ALIGN
    };
    if esize > MAX_LAYOUT_SIZE {
        return None;
    }
    if ealign - 1 > MAX_LAYOUT_SIZE - esize {
        return None;
    }
    Some(ExpandedLayout { size: esize, align: ealign, tracking_offset })
}

/// Law: the expanded layout is a pure function of the request, so the
/// computation made at allocation time and the one made independently at
/// deallocation time always agree.
pub proof fn lemma_layout_computation_deterministic(
    size: usize,
    align: usize,
    r1: Option<ExpandedLayout>,
    r2: Option<ExpandedLayout>,
)
    requires
        extend_post(size as int, align as int, r1),
        extend_post(size as int, align as int, r2),
    ensures
        r1 == r2,
{
}

} // verus!
