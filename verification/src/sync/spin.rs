//! Spin-based primitives built on atomic words: a lock, a semaphore, a
//! barrier and the state of a value initialised once.
use core::sync::atomic::{AtomicBool, AtomicU8, AtomicUsize, Ordering};

use vstd::prelude::*;

use super::{lazy_state_seen, must_wait_at_barrier, units_after_take, RawLazyState, RawTryLock, RawTryRWLock, TrySem};

verus! {

/// A spin lock.
pub struct RawSpinLock {
    lock: AtomicBool,
}

impl RawSpinLock {
    /// A free lock.
    pub fn new() -> (r: Self) {
        Self { lock: AtomicBool::new(false) }
    }

    /// Frees the lock.
    pub fn unlock(&self) {
        self.lock.store(false, Ordering::Release);
    }
}

impl RawTryLock for RawSpinLock {
    fn try_lock(&self) -> (r: bool) {
        self.lock.compare_exchange_weak(false, true, Ordering::Acquire, Ordering::Relaxed).is_ok()
    }
}

/// A semaphore whose units are taken and given back in counts.
pub struct SpinSem {
    count: AtomicUsize,
}

impl SpinSem {
    /// A semaphore that holds `count` units.
    pub fn new(count: usize) -> (r: Self) {
        Self { count: AtomicUsize::new(count) }
    }

    /// Gives back `count` units.
    pub fn signal_count(&self, count: usize) {
        self.count.fetch_add(count, Ordering::Release);
    }

    /// Takes `count` units, if as many were there when last read and no
    /// other processor changed the count in between.
    pub fn try_wait_count(&self, count: usize) -> (r: bool) {
        let sem_count = self.count.load(Ordering::Relaxed);
        match units_after_take(sem_count, count) {
            Some(left) => self.count.compare_exchange(sem_count, left, Ordering::Acquire, Ordering::Relaxed).is_ok(),
            None => false,
        }
    }
}

impl TrySem for SpinSem {
    fn try_wait_count(&self, count: usize) -> (r: bool) {
        SpinSem::try_wait_count(self, count)
    }
}

/// A readers-writer spin lock: a lock held by writers, or on behalf of all
/// the readers by the first of them, and a lock that guards the count of readers.
pub struct RawSpinRWLock {
    write_lock: RawSpinLock,
    lock: RawSpinLock,
    readers: AtomicUsize,
}

impl RawSpinRWLock {
    /// A free lock.
    pub fn new() -> (r: Self) {
        Self { write_lock: RawSpinLock::new(), lock: RawSpinLock::new(), readers: AtomicUsize::new(0) }
    }

    /// Frees the lock that a writer holds.
    pub fn unlock_write(&self) {
        self.write_lock.unlock();
    }
}

impl RawTryRWLock for RawSpinRWLock {
    /// Takes the guard of the count of readers, then, for the first reader,
    /// the writers' lock; gives the guard back when the writers' lock is busy.
    fn try_lock_read(&self) -> (r: bool) {
        if !self.lock.try_lock() {
            return false;
        }
        if self.readers.load(Ordering::Relaxed) == 0 {
            if !self.write_lock.try_lock() {
                self.lock.unlock();
                return false;
            }
        }
        true
    }

    fn try_lock_write(&self) -> (r: bool) {
        self.write_lock.try_lock()
    }
}

/// A barrier that lets processors through once `target` of them reached it.
pub struct SpinBarrier {
    count: AtomicUsize,
    target: usize,
}

impl SpinBarrier {
    /// The number of processors that the barrier waits for.
    pub closed spec fn spec_target(&self) -> usize {
        self.target
    }

    pub fn new(count: usize) -> (r: Self)
        ensures
            r.spec_target() == count,
    {
        Self { count: AtomicUsize::new(0), target: count }
    }

    /// The number of processors that the barrier waits for.
    pub fn target(&self) -> (r: usize)
        ensures
            r == self.spec_target(),
    {
        self.target
    }

    /// Records the arrival of a processor; tells whether it must wait for others.
    pub fn arrive(&self) -> (r: bool)
        requires
            self.spec_target() > 0,
    {
        let c = self.count.fetch_add(1, Ordering::Relaxed);
        must_wait_at_barrier(c, self.target)
    }

    /// Forgets the processors that arrived.
    pub fn reset(&mut self)
        ensures
            final(self).spec_target() == old(self).spec_target(),
    {
        self.count.store(0, Ordering::Relaxed);
    }

    /// Whether every processor has arrived.
    pub fn all_arrived(&self) -> (r: bool) {
        self.count.load(Ordering::Relaxed) >= self.target
    }
}

/// The state of a value initialised once: uninitialised, being initialised
/// or initialised.
pub struct RawSpinLazy {
    state: AtomicU8,
}

/// The state word of a value not yet initialised.
pub const STATE_UNINIT: u8 = 0;
/// The state word of a value being initialised.
pub const STATE_BUSY: u8 = 1;
/// The state word of an initialised value.
pub const STATE_INIT: u8 = 2;

impl RawSpinLazy {
    pub fn new() -> (r: Self) {
        Self { state: AtomicU8::new(STATE_UNINIT) }
    }

    pub fn is_init(&self) -> (r: bool) {
        self.state.load(Ordering::Relaxed) == STATE_INIT
    }

    /// Reads the state once; an accessor that sees it uninitialised tries to
    /// claim the initialisation. `None` means the claim failed and must be retried.
    pub fn try_access(&self) -> (r: Option<RawLazyState>) {
        let state = self.state.load(Ordering::Relaxed);
        match lazy_state_seen(state) {
            Some(seen) => Some(seen),
            None => {
                if self.state.compare_exchange_weak(STATE_UNINIT, STATE_BUSY, Ordering::Acquire, Ordering::Relaxed).is_ok() {
                    Some(RawLazyState::First)
                } else {
                    None
                }
            },
        }
    }

    /// Marks the value initialised.
    pub fn mark_init(&self) {
        self.state.store(STATE_INIT, Ordering::Release);
    }
}

} // verus!
