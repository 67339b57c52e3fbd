use chos_lib::pool::{is_last_reference, upgraded_count, IArcCount, IArcCountWeak, UpgradeAttempt};
use chos_lib::sync::spin::{RawSpinLock, RawSpinRWLock, SpinSem};
use chos_lib::sync::{lazy_state_seen, must_wait_at_barrier, units_after_take, RawLazyState, RawTryLock, RawTryRWLock, TrySem};

#[test]
fn spin_lock_try() {
    let l = RawSpinLock::new();
    assert!(l.try_lock_tries(10));
    assert!(!l.try_lock());
    assert!(!l.try_lock_tries(3));
    l.unlock();
    assert!(l.try_lock_tries(10));
}

#[test]
fn spin_rwlock_try() {
    let l = RawSpinRWLock::new();
    assert!(l.try_lock_write_tries(10));
    assert!(!l.try_lock_write());
    assert!(!l.try_lock_read_tries(3));
    l.unlock_write();
    assert!(l.try_lock_read_tries(10));
    assert!(!l.try_lock_write());
}

#[test]
fn spin_sem_try() {
    let s = SpinSem::new(2);
    assert!(TrySem::try_wait(&s));
    assert!(!TrySem::try_wait_count(&s, 2));
    assert!(TrySem::try_wait_tries(&s, 5));
    assert!(!TrySem::try_wait_count_tries(&s, 1, 5));
    s.signal_count(3);
    assert!(TrySem::try_wait_count_tries(&s, 3, 5));
}

#[test]
fn iarc_counts() {
    use_counts();
}

fn use_counts() {
    let c = IArcCount::new();
    c.acquire_strong();
    c.acquire_strong();
    assert_eq!(c.strong_count(), 2);
    assert!(!c.release_strong());
    assert!(c.release_strong());

    let w = IArcCountWeak::new();
    w.acquire_strong();
    assert_eq!((w.strong_count(), w.weak_count()), (1, 1));
    w.acquire_weak();
    assert_eq!(w.try_upgrade(), UpgradeAttempt::Upgraded);
    assert_eq!(w.strong_count(), 2);
    assert!(!w.release_strong());
    assert!(w.release_strong());
    assert_eq!(w.try_upgrade(), UpgradeAttempt::Dead);
    assert!(!w.release_weak());
    assert!(w.release_weak());
}

#[test]
fn units_after_take_subtracts_or_refuses() {
    assert_eq!(units_after_take(5, 3), Some(2));
    assert_eq!(units_after_take(3, 3), Some(0));
    assert_eq!(units_after_take(2, 3), None);
    assert_eq!(units_after_take(0, 0), Some(0));
}

#[test]
fn must_wait_until_last_arrives() {
    assert!(must_wait_at_barrier(0, 3));
    assert!(must_wait_at_barrier(1, 3));
    assert!(!must_wait_at_barrier(2, 3));
    assert!(!must_wait_at_barrier(5, 3));
    assert!(!must_wait_at_barrier(0, 1));
}

#[test]
fn lazy_state_seen_reads_state_words() {
    assert_eq!(lazy_state_seen(2), Some(RawLazyState::Init));
    assert_eq!(lazy_state_seen(1), Some(RawLazyState::Busy));
    assert_eq!(lazy_state_seen(0), None);
}

#[test]
fn last_reference_is_a_count_of_one() {
    assert!(is_last_reference(1));
    assert!(!is_last_reference(2));
    assert!(!is_last_reference(0));
}

#[test]
fn upgraded_count_increments_live_counts() {
    assert_eq!(upgraded_count(0), None);
    assert_eq!(upgraded_count(1), Some(2));
    assert_eq!(upgraded_count(41), Some(42));
    assert_eq!(upgraded_count(usize::MAX), Some(0));
}
