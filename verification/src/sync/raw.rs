//! A spin lock and a semaphore on single atomic words.
use core::sync::atomic::{AtomicBool, AtomicUsize, Ordering};

use vstd::prelude::*;

verus! {

/// A spin lock: one atomic flag, set while the lock is held.
pub struct RawLock {
    lock: AtomicBool,
}

impl RawLock {
    /// A free lock.
    pub fn new() -> (r: Self) {
        Self { lock: AtomicBool::new(false) }
    }

    /// Takes the lock if it is free. It may also fail, rarely, while the
    /// lock is free.
    pub fn try_lock(&self) -> (r: bool) {
        self.lock.compare_exchange_weak(false, true, Ordering::Acquire, Ordering::Relaxed).is_ok()
    }

    /// Tries to take the lock at most `n` times.
    pub fn try_lock_for(&self, n: usize) -> (r: bool)
        ensures
            r ==> n > 0,
    {
        let mut i: usize = 0;
        while i < n
            decreases n - i,
        {
            if self.try_lock() {
                return true;
            }
            core::hint::spin_loop();
            i = i + 1;
        }
        false
    }

    /// Frees the lock.
    pub fn unlock(&self) {
        self.lock.store(false, Ordering::Release);
    }
}

/// A counting semaphore.
pub struct Sem {
    count: AtomicUsize,
}

impl Sem {
    /// A semaphore that holds `count` units.
    pub fn new(count: usize) -> (r: Self) {
        Self { count: AtomicUsize::new(count) }
    }

    /// Gives back one unit.
    pub fn signal(&self) {
        self.count.fetch_add(1, Ordering::Release);
    }

    /// Takes one unit, if the count last read is positive and no other
    /// processor changed it in between.
    pub fn try_wait_once(&self) -> (r: bool) {
        let count = self.count.load(Ordering::Relaxed);
        match super::units_after_take(count, 1) {
            Some(left) => self.count.compare_exchange_weak(count, left, Ordering::Acquire, Ordering::Relaxed).is_ok(),
            None => false,
        }
    }
}

} // verus!
