//! The reference counts of values shared from a pool. Releasing a count tells
//! the caller whether it was the last one, after which the caller drops the
//! value and gives its memory back to the pool.
use core::sync::atomic::{AtomicUsize, Ordering};

use vstd::prelude::*;

verus! {

/// A count of strong references.
pub struct IArcCount {
    strong: AtomicUsize,
}

impl IArcCount {
    /// A count of zero references.
    pub fn new() -> (r: Self) {
        Self { strong: AtomicUsize::new(0) }
    }

    /// Takes one more strong reference.
    pub fn acquire_strong(&self) {
        self.strong.fetch_add(1, Ordering::Acquire);
    }

    /// Gives back one strong reference; `true` when it was the last one, and
    /// the value must be dropped and its memory freed.
    pub fn release_strong(&self) -> (r: bool) {
        is_last_reference(self.strong.fetch_sub(1, Ordering::Release))
    }

    /// The number of strong references.
    pub fn strong_count(&self) -> (r: usize) {
        self.strong.load(Ordering::Relaxed)
    }
}

/// What an attempt to upgrade a weak reference saw.
#[derive(Clone, Copy, Debug, PartialEq, Eq)]
pub enum UpgradeAttempt {
    /// A strong reference was taken.
    Upgraded,
    /// No strong reference is left: the value is gone.
    Dead,
    /// The count changed under the attempt, which must be made again.
    Retry,
}

/// Counts of strong and weak references. The strong references together hold
/// one weak reference, so that the memory outlives the value until the last
/// weak reference is given back.
pub struct IArcCountWeak {
    strong: AtomicUsize,
    weak: AtomicUsize,
}

impl IArcCountWeak {
    /// Counts of zero references.
    pub fn new() -> (r: Self) {
        Self { strong: AtomicUsize::new(0), weak: AtomicUsize::new(0) }
    }

    /// Sets both counts.
    pub fn init_count(&self, strong: usize, weak: usize) {
        self.strong.store(strong, Ordering::Relaxed);
        self.weak.store(weak, Ordering::Relaxed);
    }

    /// Takes one more strong reference; the first one also takes the weak
    /// reference that the strong ones share.
    pub fn acquire_strong(&self) {
        if self.strong.fetch_add(1, Ordering::Acquire) == 0 {
            self.acquire_weak();
        }
    }

    /// Gives back one strong reference; `true` when it was the last one, and
    /// the value must be dropped, after which the shared weak reference is
    /// given back with `release_weak`.
    pub fn release_strong(&self) -> (r: bool) {
        is_last_reference(self.strong.fetch_sub(1, Ordering::Release))
    }

    /// Takes one more weak reference.
    pub fn acquire_weak(&self) {
        self.weak.fetch_add(1, Ordering::Relaxed);
    }

    /// Gives back one weak reference; `true` when it was the last one, and
    /// the memory must be freed.
    pub fn release_weak(&self) -> (r: bool) {
        is_last_reference(self.weak.fetch_sub(1, Ordering::Relaxed))
    }

    /// Tries once to take a strong reference from a weak one: it succeeds
    /// unless no strong reference is left or the count changed meanwhile.
    pub fn try_upgrade(&self) -> (r: UpgradeAttempt) {
        let count = self.strong.load(Ordering::Relaxed);
        let next = match upgraded_count(count) {
            None => return UpgradeAttempt::Dead,
            Some(next) => next,
        };
        if self.strong.compare_exchange_weak(count, next, Ordering::Acquire, Ordering::Relaxed).is_ok() {
            UpgradeAttempt::Upgraded
        } else {
            UpgradeAttempt::Retry
        }
    }

    /// The number of strong references.
    pub fn strong_count(&self) -> (r: usize) {
        self.strong.load(Ordering::Relaxed)
    }

    /// The number of weak references.
    pub fn weak_count(&self) -> (r: usize) {
        self.weak.load(Ordering::Relaxed)
    }
}

/// Whether giving back a reference gave back the last one, when the count
/// was `previous` just before.
pub fn is_last_reference(previous: usize) -> (r: bool)
    ensures
        r == (previous == 1),
{
    previous == 1
}

/// The strong count that upgrading a weak reference writes when it reads
/// `seen`; `None` when no strong reference is left. The count wraps at the
/// top of `usize`.
pub fn upgraded_count(seen: usize) -> (r: Option<usize>)
    ensures
        seen == 0 ==> r is None,
        0 < seen < usize::MAX ==> (r matches Some(n) && n == seen + 1),
        seen == usize::MAX ==> r == Some(0usize),
{
    if seen == 0 {
        None
    } else if seen == usize::MAX {
        Some(0)
    } else {
        Some(seen + 1)
    }
}

} // verus!
