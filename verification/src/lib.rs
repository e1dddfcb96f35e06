//! A pool-backed aligned allocator.
//!
//! The host environment offers a pool primitive that hands out blocks aligned
//! to at least 8 bytes and keeps no per-allocation metadata. On top of it this
//! crate builds an allocator that satisfies any power-of-two alignment: small
//! alignments delegate directly to the pool, larger ones over-allocate and
//! place a recovery record (a [`tracker::AllocationTracker`]) after the
//! aligned region, so that the original pool pointer can be recomputed at
//! deallocation time from nothing but the caller's size and alignment.
//!
//! The pool primitive itself, and the memory the records are written into, are
//! modelled by [`pool::PoolSource`]; the raw host bindings live outside this
//! library. A small logging front end with the same bind-then-use lifecycle is
//! in [`logger`].

pub mod allocator;
pub mod layout;
pub mod locked;
pub mod logger;
pub mod pool;
pub mod tracker;
