//! The serializing shim around the aligned allocator.
//!
//! Every operation takes a process-wide spin lock for its duration, delegates
//! to the inner [`BootServicesAllocator`], and releases the lock, so that
//! multiple logical callers can share one allocator instance. The lock hides
//! the allocator's state from the verifier, so each operation first
//! re-establishes the state's soundness at run time before operating on it.
//!
//! A caller must never re-enter an operation from inside another call on the
//! same lock (for instance from an interrupt handler): the lock does not
//! detect that, and the caller would spin forever.

use crate::allocator::BootServicesAllocator;
use crate::layout::is_power_of_two;
use crate::pool::PoolSource;
use vstd::prelude::*;

verus! {

#[verifier::external_type_specification]
#[verifier::external_body]
#[verifier::reject_recursive_types(T)]
#[verifier::reject_recursive_types(R)]
pub struct ExSpinMutex<T: ?Sized, R = spin::relax::Spin>(spin::mutex::Mutex<T, R>);

#[verifier::external_type_specification]
#[verifier::external_body]
#[verifier::reject_recursive_types(T)]
#[verifier::reject_recursive_types(R)]
pub struct ExSpinMutexGuard<'a, T: 'a + ?Sized, R = spin::relax::Spin>(
    spin::mutex::MutexGuard<'a, T, R>,
);

#[verifier::external_type_specification]
#[verifier::external_body]
pub struct ExSpin(spin::relax::Spin);

/// Relies on spin::mutex::Mutex::new: wraps the allocator in a fresh,
/// unlocked mutex.
#[verifier::external_body]
fn mutex_new(inner: BootServicesAllocator) -> (m: spin::mutex::Mutex<
    BootServicesAllocator,
    spin::relax::Spin,
>) {
    spin::mutex::Mutex::new(inner)
}

/// Relies on spin::mutex::Mutex::lock: busy-waits until the lock is free,
/// then takes it and returns the guard that holds it until dropped.
#[verifier::external_body]
fn mutex_lock<'a>(m: &'a spin::mutex::Mutex<BootServicesAllocator, spin::relax::Spin>) -> (g:
    spin::mutex::MutexGuard<'a, BootServicesAllocator, spin::relax::Spin>) {
    m.lock()
}

/// Relies on spin::mutex::MutexGuard's DerefMut impl: while the guard lives,
/// it gives exclusive access to the data the lock protects.
#[verifier::external_body]
fn guard_allocator<'a, 'b>(
    g: &'b mut spin::mutex::MutexGuard<'a, BootServicesAllocator, spin::relax::Spin>,
) -> (r: &'b mut BootServicesAllocator) {
    &mut **g
}

/// The spin-locked allocator: the inner allocator behind one mutual-exclusion
/// lock, suitable as a process-wide allocation entry point.
pub struct SpinLockedAllocator {
    inner: spin::mutex::Mutex<BootServicesAllocator, spin::relax::Spin>,
}

impl SpinLockedAllocator {
    /// A fresh locked allocator with no pool source bound: every request
    /// fails until [`Self::init`] has been called.
    pub fn new() -> Self {
        SpinLockedAllocator { inner: mutex_new(BootServicesAllocator::new()) }
    }

    /// Bind the pool source that will supply all memory, under the lock.
    /// Expected to be called once, early, before concurrent use begins.
    pub fn init(&self, pool: PoolSource) {
        let mut guard = mutex_lock(&self.inner);
        let a = guard_allocator(&mut guard);
        a.init(pool);
    }

    /// Serialized allocation: take the lock, delegate, release. Returns 0 on
    /// any failure; a nonzero result satisfies the requested alignment.
    pub fn allocate(&self, size: usize, align: usize) -> (r: usize)
        requires
            is_power_of_two(align as int),
        ensures
            r != 0 ==> r as int % align as int == 0 && r >= 8,
    {
        let mut guard = mutex_lock(&self.inner);
        let a = guard_allocator(&mut guard);
        if a.check_wf() {
            a.boot_services_alloc(size, align)
        } else {
            0
        }
    }

    /// Serialized deallocation: take the lock, delegate, release.
    pub fn deallocate(&self, ptr: usize, size: usize, align: usize)
        requires
            is_power_of_two(align as int),
    {
        let mut guard = mutex_lock(&self.inner);
        let a = guard_allocator(&mut guard);
        if a.check_wf() {
            a.boot_services_dealloc(ptr, size, align);
        }
    }
}

} // verus!
