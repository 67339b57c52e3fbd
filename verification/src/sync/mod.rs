//! Synchronisation primitives: spin locks, semaphores, barriers and
//! one-time initialisation. The atomic operations they are made of are
//! std's; what another processor does between two of them is not known
//! here, so their results are stated only where a single operation fixes them.
pub mod raw;
pub mod spin;

use vstd::prelude::*;

verus! {

/// Tells the processor that the caller is spinning.
///
/// `core::hint::spin_loop` has no effect on the program's state; it is given
/// no contract beyond that it returns.
pub assume_specification[ core::hint::spin_loop ]();

/// The state of a value that is initialised once, as seen by one accessor.
#[derive(Clone, Copy, Debug, PartialEq, Eq)]
pub enum RawLazyState {
    /// This accessor is the first and must initialise the value.
    First,
    /// Another accessor is initialising the value.
    Busy,
    /// The value is initialised.
    Init,
}

/// A lock that can be tried without waiting.
pub trait RawTryLock {
    /// What an attempt to take the lock that gave `r` tells of the lock, as
    /// each implementation states it; nothing by default.
    open spec fn tried(&self, r: bool) -> bool {
        true
    }

    /// Takes the lock if it is free.
    fn try_lock(&self) -> (r: bool)
        ensures
            self.tried(r),
    ;

    /// Tries to take the lock at most `tries` times: it succeeds as an attempt
    /// succeeds, and fails when no attempt is made or each one failed.
    fn try_lock_tries(&self, tries: usize) -> (r: bool)
        ensures
            r ==> tries > 0 && self.tried(true),
            !r && tries > 0 ==> self.tried(false),
    {
        let mut i: usize = 0;
        while i < tries
            invariant
                i <= tries,
                i > 0 ==> self.tried(false),
            decreases tries - i,
        {
            if self.try_lock() {
                return true;
            }
            core::hint::spin_loop();
            i = i + 1;
        }
        false
    }
}

/// A readers-writer lock that can be tried without waiting.
pub trait RawTryRWLock {
    /// What an attempt to take the lock for reading that gave `r` tells of
    /// the lock, as each implementation states it; nothing by default.
    open spec fn tried_read(&self, r: bool) -> bool {
        true
    }

    /// What an attempt to take the lock for writing that gave `r` tells of
    /// the lock, as each implementation states it; nothing by default.
    open spec fn tried_write(&self, r: bool) -> bool {
        true
    }

    /// Takes the lock for reading if no writer holds it.
    fn try_lock_read(&self) -> (r: bool)
        ensures
            self.tried_read(r),
    ;

    /// Tries to take the lock for reading at most `tries` times: it succeeds
    /// as an attempt succeeds, and fails when no attempt is made or each one
    /// failed.
    fn try_lock_read_tries(&self, tries: usize) -> (r: bool)
        ensures
            r ==> tries > 0 && self.tried_read(true),
            !r && tries > 0 ==> self.tried_read(false),
    {
        let mut i: usize = 0;
        while i < tries
            invariant
                i <= tries,
                i > 0 ==> self.tried_read(false),
            decreases tries - i,
        {
            if self.try_lock_read() {
                return true;
            }
            core::hint::spin_loop();
            i = i + 1;
        }
        false
    }

    /// Takes the lock for writing if nobody holds it.
    fn try_lock_write(&self) -> (r: bool)
        ensures
            self.tried_write(r),
    ;

    /// Tries to take the lock for writing at most `tries` times: it succeeds
    /// as an attempt succeeds, and fails when no attempt is made or each one
    /// failed.
    fn try_lock_write_tries(&self, tries: usize) -> (r: bool)
        ensures
            r ==> tries > 0 && self.tried_write(true),
            !r && tries > 0 ==> self.tried_write(false),
    {
        let mut i: usize = 0;
        while i < tries
            invariant
                i <= tries,
                i > 0 ==> self.tried_write(false),
            decreases tries - i,
        {
            if self.try_lock_write() {
                return true;
            }
            core::hint::spin_loop();
            i = i + 1;
        }
        false
    }
}

/// A semaphore whose units can be tried for without waiting.
pub trait TrySem {
    /// What an attempt to take `count` units that gave `r` tells of the
    /// semaphore, as each implementation states it; nothing by default.
    open spec fn tried_wait(&self, count: usize, r: bool) -> bool {
        true
    }

    /// Takes `count` units if the semaphore holds as many.
    fn try_wait_count(&self, count: usize) -> (r: bool)
        ensures
            self.tried_wait(count, r),
    ;

    /// Takes one unit if the semaphore holds one: an attempt to take one unit.
    fn try_wait(&self) -> (r: bool)
        ensures
            self.tried_wait(1, r),
    {
        self.try_wait_count(1)
    }

    /// Tries to take `count` units at most `tries` times: it succeeds as an
    /// attempt succeeds, and fails when no attempt is made or each one failed.
    fn try_wait_count_tries(&self, count: usize, tries: usize) -> (r: bool)
        ensures
            r ==> tries > 0 && self.tried_wait(count, true),
            !r && tries > 0 ==> self.tried_wait(count, false),
    {
        let mut i: usize = 0;
        while i < tries
            invariant
                i <= tries,
                i > 0 ==> self.tried_wait(count, false),
            decreases tries - i,
        {
            if self.try_wait_count(count) {
                return true;
            }
            i = i + 1;
        }
        false
    }

    /// Tries to take one unit at most `tries` times.
    fn try_wait_tries(&self, tries: usize) -> (r: bool)
        ensures
            r ==> tries > 0 && self.tried_wait(1, true),
            !r && tries > 0 ==> self.tried_wait(1, false),
    {
        self.try_wait_count_tries(1, tries)
    }
}

/// What a lock does to the processor's state around its critical section.
pub trait LockPolicy {
    type Metadata;
    fn before_lock() -> Self::Metadata;
    fn after_unlock(meta: Self::Metadata);
}

/// A policy that changes nothing.
pub struct NoOpLockPolicy(());

impl LockPolicy for NoOpLockPolicy {
    type Metadata = ();

    fn before_lock() -> (r: Self::Metadata) {
    }

    fn after_unlock(meta: Self::Metadata) {
    }
}

/// A lock that is always free: for data that only one processor uses.
pub struct FakeLock(());

impl FakeLock {
    pub fn new() -> (r: Self) {
        FakeLock(())
    }

    pub fn lock(&self) {
    }

    pub fn unlock(&self) {
    }

    pub fn lock_read(&self) {
    }

    pub fn unlock_read(&self) {
    }

    pub fn lock_write(&self) {
    }

    pub fn unlock_write(&self) {
    }

    pub fn try_lock_read(&self) -> (r: bool)
        ensures
            r,
    {
        true
    }

    pub fn try_lock_write(&self) -> (r: bool)
        ensures
            r,
    {
        true
    }
}

impl RawTryLock for FakeLock {
    fn try_lock(&self) -> (r: bool) {
        true
    }
}

/// The units a semaphore is left with when `count` units are taken from the
/// `available` ones it was seen to hold; `None` when it holds too few and
/// nothing is taken.
pub fn units_after_take(available: usize, count: usize) -> (r: Option<usize>)
    ensures
        r == (if available >= count { Some((available - count) as usize) } else { None::<usize> }),
{
    if available >= count {
        Some(available - count)
    } else {
        None
    }
}

/// Whether a processor that reaches a barrier of `target` processors, after
/// `arrived_before` others did, must wait for more of them.
pub fn must_wait_at_barrier(arrived_before: usize, target: usize) -> (r: bool)
    requires
        target > 0,
    ensures
        r == (arrived_before + 1 < target),
{
    arrived_before < target - 1
}

/// What the state word `state` of a value initialised once tells an accessor:
/// the value is initialised, or being initialised by another accessor; `None`
/// when it is not initialised yet and the accessor must try to claim it.
pub fn lazy_state_seen(state: u8) -> (r: Option<RawLazyState>)
    ensures
        state == spin::STATE_INIT ==> r == Some(RawLazyState::Init),
        state == spin::STATE_BUSY ==> r == Some(RawLazyState::Busy),
        state != spin::STATE_INIT && state != spin::STATE_BUSY ==> r is None,
{
    if state == spin::STATE_INIT {
        Some(RawLazyState::Init)
    } else if state == spin::STATE_BUSY {
        Some(RawLazyState::Busy)
    } else {
        None
    }
}

} // verus!
